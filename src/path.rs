//! Path handling on plain strings, with '/' as the separator.
use vstd::prelude::*;

verus! {

/// Position of the last occurrence of `c` in `s`, or -1 when there is none.
pub open spec fn last_index_of(s: Seq<char>, c: char) -> int
    decreases s.len(),
{
    if s.len() == 0 {
        -1
    } else if s.last() == c {
        s.len() - 1
    } else {
        last_index_of(s.drop_last(), c)
    }
}

/// An optional position, with -1 for none.
pub open spec fn index_or_none(r: Option<usize>) -> int {
    match r {
        Some(i) => i as int,
        None => -1,
    }
}

/// The view of an optional string.
pub open spec fn opt_view(o: Option<String>) -> Option<Seq<char>> {
    match o {
        Some(s) => Some(s@),
        None => None,
    }
}

/// Where the final component of `path` starts: just after its last '/'.
pub open spec fn name_start(path: Seq<char>) -> int {
    last_index_of(path, '/') + 1
}

/// The final component of a path, what follows its last '/'. A path that ends
/// in '/', or whose last component is "." or "..", names no file.
pub open spec fn file_name_of(path: Seq<char>) -> Option<Seq<char>> {
    let name = path.subrange(name_start(path), path.len() as int);
    if name.len() == 0 || name == seq!['.'] || name == seq!['.', '.'] {
        None
    } else {
        Some(name)
    }
}

/// The extension of a file name: what follows its last '.', provided that this
/// dot is not the name's first character.
pub open spec fn extension_of_name(name: Seq<char>) -> Option<Seq<char>> {
    let dot = last_index_of(name, '.');
    if dot >= 1 {
        Some(name.subrange(dot + 1, name.len() as int))
    } else {
        None
    }
}

/// The extension of the file that `path` names.
pub open spec fn extension_of(path: Seq<char>) -> Option<Seq<char>> {
    match file_name_of(path) {
        Some(name) => extension_of_name(name),
        None => None,
    }
}

/// `path` with the extension of its file name replaced by `ext`: the directory
/// part and the file stem stay, an existing extension goes, and `ext` follows
/// a '.' unless it is empty. A path that names no file is left as it is.
pub open spec fn with_extension_of(path: Seq<char>, ext: Seq<char>) -> Seq<char> {
    match file_name_of(path) {
        None => path,
        Some(name) => {
            let dot = last_index_of(name, '.');
            let stem_end = if dot >= 1 {
                name_start(path) + dot
            } else {
                path.len() as int
            };
            let stem = path.subrange(0, stem_end);
            if ext.len() == 0 {
                stem
            } else {
                stem + seq!['.'] + ext
            }
        }
    }
}

pub proof fn lemma_last_index_of_bounds(s: Seq<char>, c: char)
    ensures
        -1 <= last_index_of(s, c) < s.len(),
        last_index_of(s, c) >= 0 ==> s[last_index_of(s, c)] == c,
        forall|j: int| last_index_of(s, c) < j < s.len() ==> s[j] != c,
    decreases s.len(),
{
    if s.len() > 0 && s.last() != c {
        lemma_last_index_of_bounds(s.drop_last(), c);
        assert(forall|j: int| 0 <= j < s.len() - 1 ==> s.drop_last()[j] == s[j]);
    }
}

/// The position of the last `c` in `s`.
pub fn last_index(s: &str, c: char) -> (r: Option<usize>)
    ensures
        index_or_none(r) == last_index_of(s@, c),
{
    let n = s.unicode_len();
    let mut r: Option<usize> = None;
    let mut i: usize = 0;
    while i < n
        invariant
            n == s@.len(),
            i <= n,
            index_or_none(r) == last_index_of(s@.take(i as int), c),
        decreases n - i,
    {
        if s.get_char(i) == c {
            r = Some(i);
        }
        assert(s@.take(i + 1).drop_last() =~= s@.take(i as int));
        i = i + 1;
    }
    assert(s@.take(n as int) =~= s@);
    r
}

/// The final component of `path`, if it names a file.
pub fn file_name(path: &str) -> (r: Option<String>)
    ensures
        opt_view(r) == file_name_of(path@),
{
    let n = path.unicode_len();
    proof {
        lemma_last_index_of_bounds(path@, '/');
    }
    let start: usize = match last_index(path, '/') {
        Some(i) => i + 1,
        None => 0,
    };
    let name = path.substring_char(start, n);
    let len = n - start;
    if len == 0 {
        return None;
    }
    if name.get_char(0) == '.' {
        if len == 1 {
            assert(name@ =~= seq!['.']);
            return None;
        }
        if len == 2 && name.get_char(1) == '.' {
            assert(name@ =~= seq!['.', '.']);
            return None;
        }
    }
    assert(name@ != seq!['.'] && name@ != seq!['.', '.']) by {
        if len == 1 {
            assert(seq!['.'][0] == '.');
        }
        if len == 2 {
            assert(seq!['.', '.'][0] == '.' && seq!['.', '.'][1] == '.');
        }
    }
    Some(String::from_str(name))
}

/// The extension of the file that `path` names.
pub fn extension(path: &str) -> (r: Option<String>)
    ensures
        opt_view(r) == extension_of(path@),
{
    match file_name(path) {
        None => None,
        Some(name) => {
            let n = name.as_str().unicode_len();
            match last_index(name.as_str(), '.') {
                Some(dot) => {
                    if dot >= 1 {
                        proof {
                            lemma_last_index_of_bounds(name@, '.');
                        }
                        Some(String::from_str(name.as_str().substring_char(dot + 1, n)))
                    } else {
                        None
                    }
                },
                None => None,
            }
        },
    }
}

/// `path` with the extension of its file name replaced by `ext`.
pub fn with_extension(path: &str, ext: &str) -> (r: String)
    ensures
        r@ == with_extension_of(path@, ext@),
{
    let n = path.unicode_len();
    match file_name(path) {
        None => String::from_str(path),
        Some(name) => {
            proof {
                lemma_last_index_of_bounds(path@, '/');
                lemma_last_index_of_bounds(name@, '.');
            }
            let start: usize = match last_index(path, '/') {
                Some(i) => i + 1,
                None => 0,
            };
            let stem_end: usize = match last_index(name.as_str(), '.') {
                Some(dot) => {
                    if dot >= 1 {
                        start + dot
                    } else {
                        n
                    }
                },
                None => n,
            };
            let stem = String::from_str(path.substring_char(0, stem_end));
            if ext.unicode_len() == 0 {
                stem
            } else {
                let mut r = stem;
                r.append(".");
                r.append(ext);
                proof {
                    reveal_strlit(".");
                }
                assert(r@ =~= with_extension_of(path@, ext@));
                r
            }
        },
    }
}

} // verus!

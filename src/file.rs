//! Discovery: which files of a directory listing enter a catalogue, and with
//! which key.
use vstd::prelude::*;

use crate::key::Extractor;

verus! {

/// A catalogued file.
#[derive(Debug)]
pub struct FileInfo {
    /// The full path of the file.
    pub filepath: String,
    /// The extension under which the file was catalogued.
    pub extension: String,
    /// The key derived from the file name; never empty.
    pub key: String,
}

/// What a catalogue entry holds.
pub struct EntryView {
    pub filepath: Seq<char>,
    pub extension: Seq<char>,
    pub key: Seq<char>,
}

impl View for FileInfo {
    type V = EntryView;

    open spec fn view(&self) -> EntryView {
        EntryView { filepath: self.filepath@, extension: self.extension@, key: self.key@ }
    }
}

/// The views of a list of entries.
pub open spec fn entries_view(v: Seq<FileInfo>) -> Seq<EntryView> {
    v.map_values(|f: FileInfo| f@)
}

/// The key of the file that `path` names, under the key function `key_of`.
pub open spec fn key_of_path(key_of: spec_fn(Seq<char>) -> Option<Seq<char>>, path: Seq<char>) -> Option<
    Seq<char>,
> {
    match crate::path::file_name_of(path) {
        Some(name) => key_of(name),
        None => None,
    }
}

/// Whether `path` enters a catalogue of the files with one of `extensions`:
/// its extension is one of them, exactly, and its file name has a key that
/// is not empty.
pub open spec fn qualifies(
    key_of: spec_fn(Seq<char>) -> Option<Seq<char>>,
    path: Seq<char>,
    extensions: Seq<Seq<char>>,
) -> bool {
    &&& crate::path::extension_of(path) is Some
    &&& extensions.contains(crate::path::extension_of(path)->0)
    &&& key_of_path(key_of, path) is Some
    &&& key_of_path(key_of, path)->0.len() > 0
}

/// The entry for a path that enters a catalogue.
pub open spec fn entry_of(key_of: spec_fn(Seq<char>) -> Option<Seq<char>>, path: Seq<char>) -> EntryView {
    EntryView {
        filepath: path,
        extension: crate::path::extension_of(path)->0,
        key: key_of_path(key_of, path)->0,
    }
}

/// The catalogue of the files among `paths` with one of `extensions`: the
/// entries of those that enter it, in the order of `paths`.
pub open spec fn catalogue(
    key_of: spec_fn(Seq<char>) -> Option<Seq<char>>,
    paths: Seq<Seq<char>>,
    extensions: Seq<Seq<char>>,
) -> Seq<EntryView>
    decreases paths.len(),
{
    if paths.len() == 0 {
        seq![]
    } else {
        let rest = catalogue(key_of, paths.drop_last(), extensions);
        if qualifies(key_of, paths.last(), extensions) {
            rest.push(entry_of(key_of, paths.last()))
        } else {
            rest
        }
    }
}

/// Builds catalogue entries with one extractor.
pub struct FileInfoConstructor<'a, E: Extractor> {
    key_extractor: &'a E,
}

impl<'a, E: Extractor> FileInfoConstructor<'a, E> {
    /// The extractor that keys the entries.
    pub closed spec fn extractor(&self) -> E {
        *self.key_extractor
    }

    /// The key function of the extractor.
    pub open spec fn key_fn(&self) -> spec_fn(Seq<char>) -> Option<Seq<char>> {
        |name: Seq<char>| self.extractor().key_of(name)
    }

    /// A constructor that keys entries with `key_extractor`.
    pub fn new(key_extractor: &'a E) -> (r: Self)
        ensures
            r.extractor() == *key_extractor,
    {
        FileInfoConstructor { key_extractor }
    }

    /// The entry for `filepath`, when it enters a catalogue of the files with
    /// one of `extensions`.
    pub fn gen_fileinfo(&self, filepath: &str, extensions: &Vec<String>) -> (r: Result<
        Option<FileInfo>,
        crate::error::SetupError,
    >)
        ensures
            r is Ok,
            r matches Ok(o) ==> (o is Some <==> qualifies(
                self.key_fn(),
                filepath@,
                crate::key::strings_view(extensions@),
            )),
            r matches Ok(Some(f)) ==> f@ == entry_of(self.key_fn(), filepath@),
    {
        let ghost exts = crate::key::strings_view(extensions@);
        let file_ext = match crate::path::extension(filepath) {
            Some(e) => e,
            None => {
                return Ok(None);
            },
        };
        let n = extensions.len();
        let mut i: usize = 0;
        while i < n
            invariant
                n == extensions@.len(),
                i <= n,
                exts == crate::key::strings_view(extensions@),
                crate::path::extension_of(filepath@) == Some(file_ext@),
                forall|j: int| 0 <= j < i ==> exts[j] != file_ext@,
            decreases n - i,
        {
            if extensions[i] == file_ext {
                let name = match crate::path::file_name(filepath) {
                    Some(name) => name,
                    None => {
                        return Ok(None);
                    },
                };
                assert(exts[i as int] == file_ext@);
                return match self.key_extractor.extract(name.as_str()) {
                    Some(key) => {
                        if key.as_str().unicode_len() > 0 {
                            Ok(
                                Some(
                                    FileInfo {
                                        filepath: String::from_str(filepath),
                                        extension: extensions[i].clone(),
                                        key,
                                    },
                                ),
                            )
                        } else {
                            Ok(None)
                        }
                    },
                    None => Ok(None),
                };
            }
            i = i + 1;
        }
        assert(!exts.contains(file_ext@));
        Ok(None)
    }

    /// The entries for those of `paths` that enter a catalogue of the files
    /// with one of `extensions`, in the order of `paths`.
    pub fn from_paths(&self, paths: &Vec<String>, extensions: &Vec<String>) -> (r: Vec<FileInfo>)
        ensures
            entries_view(r@) == catalogue(
                self.key_fn(),
                crate::key::strings_view(paths@),
                crate::key::strings_view(extensions@),
            ),
    {
        let ghost exts = crate::key::strings_view(extensions@);
        let ghost ps = crate::key::strings_view(paths@);
        let mut ret: Vec<FileInfo> = Vec::new();
        let mut i: usize = 0;
        while i < paths.len()
            invariant
                i <= paths@.len(),
                exts == crate::key::strings_view(extensions@),
                ps == crate::key::strings_view(paths@),
                entries_view(ret@) == catalogue(self.key_fn(), ps.take(i as int), exts),
            decreases paths@.len() - i,
        {
            let ghost before = ret@;
            assert(ps.take(i + 1).drop_last() =~= ps.take(i as int));
            assert(ps.take(i + 1).last() == paths@[i as int]@);
            let found = self.gen_fileinfo(paths[i].as_str(), extensions);
            if let Ok(Some(fileinfo)) = found {
                ret.push(fileinfo);
                assert(entries_view(ret@) =~= entries_view(before).push(fileinfo@));
            }
            i = i + 1;
        }
        assert(ps.take(paths@.len() as int) =~= ps);
        ret
    }
}

} // verus!

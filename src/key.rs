//! Key extraction: an ordered list of regular expressions turns a file name
//! into a key, or into no key at all.
use vstd::prelude::*;

verus! {

/// regex::Regex, a compiled regular expression, carried opaque.
#[verifier::external_type_specification]
#[verifier::external_body]
pub struct ExRegex(regex::Regex);

/// regex::Error, what regex::Regex::new fails with, carried opaque.
#[verifier::external_type_specification]
#[verifier::external_body]
pub struct ExRegexError(regex::Error);

/// Whether the regex crate compiles `pattern` (its syntax is valid and the
/// compiled program fits the default size limit).
pub uninterp spec fn pattern_compiles(pattern: Seq<char>) -> bool;

/// The capture groups of the leftmost match of `pattern` in `text`, group 0
/// (the whole match) first and the others in the order of their opening
/// parenthesis, `None` for a group that took no part in the match; `None`
/// when `pattern` does not match anywhere in `text`.
pub uninterp spec fn first_captures(pattern: Seq<char>, text: Seq<char>) -> Option<
    Seq<Option<Seq<char>>>,
>;

/// The view of the capture groups of one match.
pub open spec fn groups_view(groups: Seq<Option<String>>) -> Seq<Option<Seq<char>>> {
    groups.map_values(|g: Option<String>| crate::path::opt_view(g))
}

/// The view of what a search returns.
pub open spec fn match_view(m: Option<Vec<Option<String>>>) -> Option<Seq<Option<Seq<char>>>> {
    match m {
        Some(groups) => Some(groups_view(groups@)),
        None => None,
    }
}

/// The values of the groups that took part in a match, in order.
pub open spec fn participating(groups: Seq<Option<Seq<char>>>) -> Seq<Seq<char>>
    decreases groups.len(),
{
    if groups.len() == 0 {
        seq![]
    } else {
        let rest = participating(groups.drop_last());
        match groups.last() {
            Some(v) => rest.push(v),
            None => rest,
        }
    }
}

/// `parts` joined with '-' between each two.
pub open spec fn join_dash(parts: Seq<Seq<char>>) -> Seq<char>
    decreases parts.len(),
{
    if parts.len() == 0 {
        seq![]
    } else if parts.len() == 1 {
        parts[0]
    } else {
        join_dash(parts.drop_last()) + seq!['-'] + parts.last()
    }
}

/// The key that one match gives: the values of its capturing groups (all
/// groups after group 0) that took part, joined with '-'; no key when none
/// of them took part.
pub open spec fn key_of_groups(groups: Seq<Option<Seq<char>>>) -> Option<Seq<char>> {
    if groups.len() == 0 {
        None
    } else {
        let parts = participating(groups.drop_first());
        if parts.len() == 0 {
            None
        } else {
            Some(join_dash(parts))
        }
    }
}

/// The key that one pattern gives for `text`: that of its leftmost match.
pub open spec fn key_by(pattern: Seq<char>, text: Seq<char>) -> Option<Seq<char>> {
    match first_captures(pattern, text) {
        Some(groups) => key_of_groups(groups),
        None => None,
    }
}

/// The key that an ordered pattern list gives for `text`: that of the first
/// pattern that gives one.
pub open spec fn key_for(patterns: Seq<Seq<char>>, text: Seq<char>) -> Option<Seq<char>>
    decreases patterns.len(),
{
    if patterns.len() == 0 {
        None
    } else {
        match key_by(patterns[0], text) {
            Some(k) => Some(k),
            None => key_for(patterns.drop_first(), text),
        }
    }
}

/// Relies on regex::Regex::new, which returns an error exactly for the
/// patterns that it does not compile.
#[verifier::external_body]
fn compile(pattern: &str) -> (r: Result<regex::Regex, regex::Error>)
    ensures
        r is Ok <==> pattern_compiles(pattern@),
{
    regex::Regex::new(pattern)
}

/// A compiled regular expression together with its source text.
pub struct Pattern {
    source: String,
    re: regex::Regex,
}

impl Pattern {
    /// The source text the pattern was compiled from.
    pub closed spec fn source(&self) -> Seq<char> {
        self.source@
    }

    /// Compiles `pattern`.
    pub fn new(pattern: &str) -> (r: Result<Pattern, crate::error::SetupError>)
        ensures
            r is Ok <==> pattern_compiles(pattern@),
            r matches Ok(p) ==> p.source() == pattern@,
            r matches Err(e) ==> (e matches crate::error::SetupError::InvalidPattern { pattern: p } && p@
                == pattern@),
    {
        match compile(pattern) {
            Ok(re) => Ok(Pattern { source: String::from_str(pattern), re }),
            Err(_) => Err(crate::error::SetupError::InvalidPattern { pattern: String::from_str(pattern) }),
        }
    }

    /// The source text the pattern was compiled from.
    pub fn as_str(&self) -> (r: &str)
        ensures
            r@ == self.source(),
    {
        self.source.as_str()
    }
}

/// Relies on regex::Regex::captures and regex::Captures::iter: the groups of
/// the leftmost match, group 0 first, `None` for a group that took no part.
/// `pattern.re` is what regex::Regex::new made of `pattern.source`, as
/// `Pattern::new` alone builds a `Pattern`.
#[verifier::external_body]
pub(crate) fn captures(pattern: &Pattern, text: &str) -> (r: Option<Vec<Option<String>>>)
    ensures
        match_view(r) == first_captures(pattern.source(), text@),
{
    pattern.re.captures(text).map(
        |caps| caps.iter().map(|g| g.map(|m| m.as_str().to_string())).collect(),
    )
}

/// The key that the capture groups of one match give.
pub fn key_from_captures(groups: &Vec<Option<String>>) -> (r: Option<String>)
    ensures
        crate::path::opt_view(r) == key_of_groups(groups_view(groups@)),
{
    let n = groups.len();
    if n == 0 {
        return None;
    }
    let ghost gv = groups_view(groups@);
    let mut key = String::new();
    let mut count: usize = 0;
    let mut i: usize = 1;
    while i < n
        invariant
            n == groups@.len(),
            gv == groups_view(groups@),
            1 <= i <= n,
            count == participating(gv.subrange(1, i as int)).len(),
            count <= i,
            key@ == join_dash(participating(gv.subrange(1, i as int))),
        decreases n - i,
    {
        let ghost before = participating(gv.subrange(1, i as int));
        assert(gv.subrange(1, i + 1).drop_last() =~= gv.subrange(1, i as int));
        match &groups[i] {
            Some(v) => {
                if count > 0 {
                    key.append("-");
                }
                key.append(v.as_str());
                proof {
                    reveal_strlit("-");
                    let after = before.push(v@);
                    assert(after.drop_last() =~= before);
                    if count == 0 {
                        assert(key@ =~= join_dash(after));
                    } else {
                        assert(key@ =~= join_dash(after));
                    }
                }
                count = count + 1;
            },
            None => {},
        }
        i = i + 1;
    }
    assert(gv.subrange(1, n as int) =~= gv.drop_first());
    if count == 0 {
        None
    } else {
        Some(key)
    }
}

/// Derives a key from a file name.
pub trait Extractor {
    /// The key that `extract` gives for `source`. An implementation that
    /// gives keys states which by defining this; one that leaves it as it is
    /// is held to give none.
    open spec fn key_of(&self, source: Seq<char>) -> Option<Seq<char>> {
        None
    }

    /// The key of `source`, or `None` when it has none.
    fn extract(&self, source: &str) -> (r: Option<String>)
        ensures
            crate::path::opt_view(r) == self.key_of(source@),
    ;
}

/// The source texts of a list of patterns.
pub open spec fn sources(patterns: Seq<Pattern>) -> Seq<Seq<char>> {
    patterns.map_values(|p: Pattern| p.source())
}

/// The views of a list of strings.
pub open spec fn strings_view(v: Seq<String>) -> Seq<Seq<char>> {
    v.map_values(|s: String| s@)
}

/// Whether every one of `patterns` compiles.
pub open spec fn all_compile(patterns: Seq<Seq<char>>) -> bool {
    forall|i: int| 0 <= i < patterns.len() ==> pattern_compiles(#[trigger] patterns[i])
}

/// Whether `e` names the first of `patterns` that does not compile.
pub open spec fn reports_first_invalid(patterns: Seq<Seq<char>>, e: crate::error::SetupError) -> bool {
    exists|i: int|
        0 <= i < patterns.len() && !pattern_compiles(#[trigger] patterns[i]) && (forall|j: int|
            0 <= j < i ==> pattern_compiles(#[trigger] patterns[j])) && (
        e matches crate::error::SetupError::InvalidPattern { pattern } && pattern@ == patterns[i])
}

/// An extractor that tries an ordered list of regular expressions.
pub struct RegexExtractor {
    re_list: Vec<Pattern>,
}

impl RegexExtractor {
    /// The source texts of the patterns, in the order they are tried.
    pub closed spec fn patterns(&self) -> Seq<Seq<char>> {
        sources(self.re_list@)
    }

    /// Compiles each of `patterns`, keeping their order; fails on the first
    /// that does not compile.
    pub fn new(patterns: &Vec<String>) -> (r: Result<RegexExtractor, crate::error::SetupError>)
        ensures
            r is Ok <==> all_compile(strings_view(patterns@)),
            r matches Ok(e) ==> e.patterns() == strings_view(patterns@),
            r matches Err(e) ==> reports_first_invalid(strings_view(patterns@), e),
    {
        let mut re_list: Vec<Pattern> = Vec::new();
        let mut i: usize = 0;
        while i < patterns.len()
            invariant
                i <= patterns@.len(),
                re_list@.len() == i,
                sources(re_list@) =~= strings_view(patterns@.take(i as int)),
                forall|j: int| 0 <= j < i ==> pattern_compiles(#[trigger] patterns@[j]@),
            decreases patterns@.len() - i,
        {
            match Pattern::new(patterns[i].as_str()) {
                Ok(p) => {
                    let ghost before = re_list@;
                    re_list.push(p);
                    assert(re_list@ =~= before.push(p));
                    assert forall|j: int| 0 <= j < i + 1 implies #[trigger] sources(re_list@)[j]
                        == strings_view(patterns@.take(i + 1))[j] by {
                        if j < i {
                            assert(sources(before)[j] == strings_view(patterns@.take(i as int))[j]);
                        }
                    }
                    assert(sources(re_list@) =~= strings_view(patterns@.take(i + 1)));
                },
                Err(e) => {
                    assert(strings_view(patterns@)[i as int] == patterns@[i as int]@);
                    assert(forall|j: int|
                        0 <= j < i ==> strings_view(patterns@)[j] == patterns@[j]@);
                    return Err(e);
                },
            }
            i = i + 1;
        }
        assert(patterns@.take(i as int) =~= patterns@);
        assert(forall|j: int|
            0 <= j < patterns@.len() ==> strings_view(patterns@)[j] == patterns@[j]@);
        Ok(RegexExtractor { re_list })
    }

    /// The key that one pattern gives for `source`.
    fn extract_one(&self, source: &str, re: &Pattern) -> (r: Option<String>)
        ensures
            crate::path::opt_view(r) == key_by(re.source(), source@),
    {
        match captures(re, source) {
            Some(groups) => key_from_captures(&groups),
            None => None,
        }
    }
}

impl Extractor for RegexExtractor {
    open spec fn key_of(&self, source: Seq<char>) -> Option<Seq<char>> {
        key_for(self.patterns(), source)
    }

    /// The key of the first pattern that gives one.
    fn extract(&self, source: &str) -> (r: Option<String>) {
        let n = self.re_list.len();
        let mut i: usize = 0;
        assert(self.patterns().skip(0) =~= self.patterns());
        while i < n
            invariant
                n == self.re_list@.len(),
                i <= n,
                key_for(self.patterns(), source@) == key_for(self.patterns().skip(i as int), source@),
            decreases n - i,
        {
            let ghost rest = self.patterns().skip(i as int);
            assert(rest.drop_first() =~= self.patterns().skip(i + 1));
            assert(rest[0] == self.re_list@[i as int].source());
            if let Some(key) = self.extract_one(source, &self.re_list[i]) {
                return Some(key);
            }
            i = i + 1;
        }
        assert(self.patterns().skip(n as int).len() == 0);
        None
    }
}

/// Key extraction is a function of the pattern list and the file name
/// alone: two extractors with the same patterns, or one extractor asked
/// twice, give the same key for the same name.
pub proof fn lemma_extract_deterministic(a: RegexExtractor, b: RegexExtractor, name: Seq<char>)
    requires
        a.patterns() == b.patterns(),
    ensures
        a.key_of(name) == b.key_of(name),
{
}

/// The first pattern that gives a key decides it, whatever the patterns
/// after it would give.
pub proof fn lemma_first_key_wins(patterns: Seq<Seq<char>>, i: int, name: Seq<char>)
    requires
        0 <= i < patterns.len(),
        forall|j: int| 0 <= j < i ==> key_by(#[trigger] patterns[j], name) is None,
        key_by(patterns[i], name) is Some,
    ensures
        key_for(patterns, name) == key_by(patterns[i], name),
    decreases i,
{
    if i > 0 {
        let rest = patterns.drop_first();
        assert(forall|j: int| 0 <= j < rest.len() ==> rest[j] == patterns[j + 1]);
        assert(key_by(patterns[0], name) is None);
        lemma_first_key_wins(rest, i - 1, name);
    }
}

} // verus!

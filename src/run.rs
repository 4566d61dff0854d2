//! One pairing run over the listing of a directory.
use vstd::prelude::*;

use crate::file::FileInfoConstructor;
use crate::key::RegexExtractor;
use crate::pairing::{pair, CopyInstruction};

verus! {

/// What a run is asked to do.
#[derive(Debug)]
pub struct Config {
    /// The directory whose files are paired.
    pub dir: String,
    /// The key patterns, in the order they are tried.
    pub patterns: Vec<String>,
    /// The extensions of subtitle files.
    pub sub_exts: Vec<String>,
    /// The extensions of episode files.
    pub ep_exts: Vec<String>,
}

/// The default key patterns: "S01E01", "S1E01", "1x01" and "101".
pub open spec fn default_patterns() -> Seq<Seq<char>> {
    seq![
        "(?i)S0(\\d{1})(?i)E(\\d{2})"@,
        "(?i)S(\\d{1})(?i)E(\\d{2})"@,
        "(\\d{1})(?i)x(\\d{2})"@,
        "(\\d{1})(\\d{2})"@,
    ]
}

/// The default subtitle extensions.
pub open spec fn default_sub_exts() -> Seq<Seq<char>> {
    seq!["srt"@, "ass"@]
}

/// The default episode extensions.
pub open spec fn default_ep_exts() -> Seq<Seq<char>> {
    seq!["mkv"@, "mp4"@]
}

impl Config {
    /// A configuration for `dir` with the default patterns and extensions.
    pub fn new(dir: String) -> (r: Config)
        ensures
            r.dir == dir,
            crate::key::strings_view(r.patterns@) == default_patterns(),
            crate::key::strings_view(r.sub_exts@) == default_sub_exts(),
            crate::key::strings_view(r.ep_exts@) == default_ep_exts(),
    {
        let patterns = vec![
            String::from_str("(?i)S0(\\d{1})(?i)E(\\d{2})"),
            String::from_str("(?i)S(\\d{1})(?i)E(\\d{2})"),
            String::from_str("(\\d{1})(?i)x(\\d{2})"),
            String::from_str("(\\d{1})(\\d{2})"),
        ];
        let sub_exts = vec![String::from_str("srt"), String::from_str("ass")];
        let ep_exts = vec![String::from_str("mkv"), String::from_str("mp4")];
        assert(crate::key::strings_view(patterns@) =~= default_patterns());
        assert(crate::key::strings_view(sub_exts@) =~= default_sub_exts());
        assert(crate::key::strings_view(ep_exts@) =~= default_ep_exts());
        Config { dir, patterns, sub_exts, ep_exts }
    }
}

/// The key function of a pattern list.
pub open spec fn keys_by(patterns: Seq<Seq<char>>) -> spec_fn(Seq<char>) -> Option<Seq<char>> {
    |name: Seq<char>| crate::key::key_for(patterns, name)
}

/// The copies of a run with `patterns` over the paths of `listing`: the
/// subtitle and episode catalogues are both drawn from the listing, then
/// paired.
pub open spec fn run_instructions(
    patterns: Seq<Seq<char>>,
    listing: Seq<Seq<char>>,
    sub_exts: Seq<Seq<char>>,
    ep_exts: Seq<Seq<char>>,
) -> Seq<(Seq<char>, Seq<char>)> {
    crate::pairing::instructions(
        crate::file::catalogue(keys_by(patterns), listing, sub_exts),
        crate::file::catalogue(keys_by(patterns), listing, ep_exts),
    )
}

/// Pairs the files of `listing`, the paths of the files in `config.dir`,
/// and returns the copies to make, in episode order; fails before any
/// pairing when a pattern does not compile.
pub fn run(config: &Config, listing: &Vec<String>) -> (r: Result<
    Vec<CopyInstruction>,
    crate::error::SetupError,
>)
    ensures
        r is Ok <==> crate::key::all_compile(crate::key::strings_view(config.patterns@)),
        r matches Err(e) ==> crate::key::reports_first_invalid(
            crate::key::strings_view(config.patterns@),
            e,
        ),
        r matches Ok(v) ==> crate::pairing::instructions_view(v@) == run_instructions(
            crate::key::strings_view(config.patterns@),
            crate::key::strings_view(listing@),
            crate::key::strings_view(config.sub_exts@),
            crate::key::strings_view(config.ep_exts@),
        ),
{
    let key_extractor = match RegexExtractor::new(&config.patterns) {
        Ok(e) => e,
        Err(e) => {
            return Err(e);
        },
    };
    let file_info_constructor = FileInfoConstructor::new(&key_extractor);
    let subtitle_file_info_list = file_info_constructor.from_paths(listing, &config.sub_exts);
    let episode_file_info_list = file_info_constructor.from_paths(listing, &config.ep_exts);
    assert(file_info_constructor.key_fn() =~= keys_by(crate::key::strings_view(config.patterns@)));
    Ok(pair(&subtitle_file_info_list, &episode_file_info_list))
}

} // verus!

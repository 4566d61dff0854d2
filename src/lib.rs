//! Pairs episode files with the subtitle files that carry the same key.
use vstd::prelude::*;

pub mod error;
pub mod file;
pub mod key;
pub mod number;
pub mod pairing;
pub mod path;
pub mod run;

use crate::key::{captures, Pattern};
use crate::number::parse_u32;

verus! {

/// The numbers that the groups of a match read as, in group order (group 0,
/// the whole match, first); groups that took no part or read as no number
/// are left out.
pub open spec fn numbers_of(groups: Seq<Option<Seq<char>>>) -> Seq<u32>
    decreases groups.len(),
{
    if groups.len() == 0 {
        seq![]
    } else {
        let rest = numbers_of(groups.drop_last());
        match groups.last() {
            Some(g) => match crate::number::parse_u32_of(g) {
                Some(x) => rest.push(x),
                None => rest,
            },
            None => rest,
        }
    }
}

/// The numbers that the leftmost match of `pattern` in `s` gives; none when
/// it does not match.
pub open spec fn keys_of(pattern: Seq<char>, s: Seq<char>) -> Seq<u32> {
    match crate::key::first_captures(pattern, s) {
        Some(groups) => numbers_of(groups),
        None => seq![],
    }
}

fn numbers_in(pattern: &Pattern, s: &str) -> (r: Vec<u32>)
    ensures
        r@ == keys_of(pattern.source(), s@),
{
    let mut ret: Vec<u32> = Vec::new();
    match captures(pattern, s) {
        None => {},
        Some(groups) => {
            let ghost gv = crate::key::groups_view(groups@);
            let mut i: usize = 0;
            while i < groups.len()
                invariant
                    i <= groups@.len(),
                    gv == crate::key::groups_view(groups@),
                    ret@ == numbers_of(gv.take(i as int)),
                decreases groups@.len() - i,
            {
                assert(gv.take(i + 1).drop_last() =~= gv.take(i as int));
                assert(gv.take(i + 1).last() == crate::path::opt_view(groups@[i as int]));
                if let Some(g) = &groups[i] {
                    if let Some(x) = parse_u32(g.as_str()) {
                        ret.push(x);
                    }
                }
                i = i + 1;
            }
            assert(gv.take(groups@.len() as int) =~= gv);
        },
    }
    ret
}

/// The numbers that the leftmost match of `pattern` in `s` gives.
pub fn extract_keys(s: &str, pattern: &str) -> (r: Vec<u32>)
    requires
        crate::key::pattern_compiles(pattern@),
    ensures
        r@ == keys_of(pattern@, s@),
{
    match Pattern::new(pattern) {
        Ok(p) => numbers_in(&p, s),
        Err(_) => Vec::new(),
    }
}

/// The numbers that the leftmost match of `pattern` in `s` gives; `None`
/// when `pattern` does not compile.
pub fn try_extract_keys(s: &str, pattern: &str) -> (r: Option<Vec<u32>>)
    ensures
        r is Some <==> crate::key::pattern_compiles(pattern@),
        r matches Some(v) ==> v@ == keys_of(pattern@, s@),
{
    match Pattern::new(pattern) {
        Ok(_) => Some(extract_keys(s, pattern)),
        Err(_) => None,
    }
}

} // verus!

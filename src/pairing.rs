//! Pairing: subtitles are grouped by key, and each episode takes the first
//! subtitle of its group unless that one already sits where it would go.
use vstd::prelude::*;

use crate::file::{EntryView, FileInfo};

verus! {

/// The positions, in catalogue order, of the entries of `subs` whose key is
/// `key`.
pub open spec fn indices_with_key(subs: Seq<EntryView>, key: Seq<char>) -> Seq<usize>
    decreases subs.len(),
{
    if subs.len() == 0 {
        seq![]
    } else {
        let rest = indices_with_key(subs.drop_last(), key);
        if subs.last().key == key {
            rest.push((subs.len() - 1) as usize)
        } else {
            rest
        }
    }
}

/// Subtitle entries grouped by key: one slot per key, holding the positions
/// of its entries in catalogue order.
pub struct KeyGroup {
    keys: Vec<String>,
    members: Vec<Vec<usize>>,
}

impl KeyGroup {
    /// The keys are distinct and each has its list of members.
    pub closed spec fn wf(&self) -> bool {
        &&& self.keys@.len() == self.members@.len()
        &&& forall|a: int, b: int|
            0 <= a < self.keys@.len() && 0 <= b < self.keys@.len() && a != b
                ==> #[trigger] self.keys@[a]@ != #[trigger] self.keys@[b]@
    }

    /// Whether `key` has a slot.
    pub closed spec fn has_key(&self, key: Seq<char>) -> bool {
        exists|j: int| 0 <= j < self.keys@.len() && self.keys@[j]@ == key
    }

    /// The members stored at `key`; none when the key has no slot.
    pub closed spec fn group(&self, key: Seq<char>) -> Seq<usize> {
        if self.has_key(key) {
            let j = choose|j: int| 0 <= j < self.keys@.len() && self.keys@[j]@ == key;
            self.members@[j]@
        } else {
            seq![]
        }
    }

    proof fn lemma_group_at(&self, j: int)
        requires
            self.wf(),
            0 <= j < self.keys@.len(),
        ensures
            self.has_key(self.keys@[j]@),
            self.group(self.keys@[j]@) == self.members@[j]@,
    {
        let key = self.keys@[j]@;
        assert(0 <= j < self.keys@.len() && self.keys@[j]@ == key);
        let c = choose|c: int| 0 <= c < self.keys@.len() && self.keys@[c]@ == key;
        assert(c == j);
    }

    /// Groups `subs` by key.
    pub fn build(subs: &Vec<FileInfo>) -> (g: KeyGroup)
        ensures
            g.wf(),
            forall|key: Seq<char>| #[trigger]
                g.group(key) == indices_with_key(crate::file::entries_view(subs@), key),
    {
        let mut g = KeyGroup { keys: Vec::new(), members: Vec::new() };
        let mut i: usize = 0;
        while i < subs.len()
            invariant
                i <= subs@.len(),
                g.wf(),
                forall|key: Seq<char>| #[trigger]
                    g.group(key) == indices_with_key(crate::file::entries_view(subs@).take(i as int), key),
            decreases subs@.len() - i,
        {
            let ghost before = g;
            let ghost prefix = crate::file::entries_view(subs@).take(i as int);
            assert(crate::file::entries_view(subs@).take(i + 1).drop_last() =~= prefix);
            let key = &subs[i].key;
            match g.slot(key) {
                Some(j) => {
                    proof {
                        before.lemma_group_at(j as int);
                    }
                    g.members[j].push(i);
                    proof {
                        assert(g.keys@ == before.keys@);
                        assert forall|k: Seq<char>| #[trigger]
                            g.group(k) == indices_with_key(crate::file::entries_view(subs@).take(i + 1), k) by {
                            g.lemma_group_at(j as int);
                            assert(before.group(k) == indices_with_key(prefix, k));
                            assert(crate::file::entries_view(subs@).take(i + 1).last() == subs@[i as int]@);
                            if k == key@ {
                                assert(g.members@[j as int]@ =~= before.members@[j as int]@.push(i));
                            } else {
                                if g.has_key(k) {
                                    let c = choose|c: int|
                                        0 <= c < g.keys@.len() && g.keys@[c]@ == k;
                                    g.lemma_group_at(c);
                                    before.lemma_group_at(c);
                                    assert(c != j);
                                    assert(g.members@[c] == before.members@[c]);
                                }
                                assert(before.has_key(k) == g.has_key(k));
                            }
                        }
                    }
                },
                None => {
                    g.keys.push(key.clone());
                    g.members.push(vec![i]);
                    proof {
                        let n = before.keys@.len() as int;
                        assert(g.keys@[n]@ == key@);
                        assert(forall|a: int| 0 <= a < n ==> g.keys@[a] == before.keys@[a]);
                        assert(forall|a: int| 0 <= a < n ==> g.members@[a] == before.members@[a]);
                        assert forall|k: Seq<char>| #[trigger]
                            g.group(k) == indices_with_key(crate::file::entries_view(subs@).take(i + 1), k) by {
                            g.lemma_group_at(n);
                            assert(before.group(k) == indices_with_key(prefix, k));
                            assert(crate::file::entries_view(subs@).take(i + 1).last() == subs@[i as int]@);
                            if k == key@ {
                                assert(!before.has_key(k));
                                assert(g.members@[n]@ =~= seq![i]);
                                assert(indices_with_key(prefix, k) =~= seq![]);
                            } else {
                                if g.has_key(k) {
                                    let c = choose|c: int|
                                        0 <= c < g.keys@.len() && g.keys@[c]@ == k;
                                    g.lemma_group_at(c);
                                    before.lemma_group_at(c);
                                }
                                if before.has_key(k) {
                                    let c = choose|c: int|
                                        0 <= c < before.keys@.len() && before.keys@[c]@ == k;
                                    assert(g.keys@[c]@ == k);
                                }
                            }
                        }
                    }
                },
            }
            i = i + 1;
        }
        assert(crate::file::entries_view(subs@).take(subs@.len() as int) =~= crate::file::entries_view(subs@));
        g
    }

    /// The slot of `key`, if it has one.
    fn slot(&self, key: &String) -> (r: Option<usize>)
        requires
            self.wf(),
        ensures
            r matches Some(j) ==> j < self.keys@.len() && self.keys@[j as int]@ == key@,
            r is None ==> !self.has_key(key@),
    {
        let mut j: usize = 0;
        while j < self.keys.len()
            invariant
                j <= self.keys@.len(),
                forall|a: int| 0 <= a < j ==> self.keys@[a]@ != key@,
            decreases self.keys@.len() - j,
        {
            if self.keys[j] == *key {
                return Some(j);
            }
            j = j + 1;
        }
        None
    }

    /// The positions of the entries stored at `key`, in catalogue order;
    /// `None` when there are none.
    pub fn lookup(&self, key: &String) -> (r: Option<&Vec<usize>>)
        requires
            self.wf(),
        ensures
            r matches Some(v) ==> v@ == self.group(key@) && v@.len() > 0,
            r is None ==> self.group(key@).len() == 0,
    {
        match self.slot(key) {
            Some(j) => {
                proof {
                    self.lemma_group_at(j as int);
                }
                if self.members[j].len() > 0 {
                    Some(&self.members[j])
                } else {
                    None
                }
            },
            None => None,
        }
    }
}

/// A copy that pairing asks for.
#[derive(Debug)]
pub struct CopyInstruction {
    /// The subtitle to copy.
    pub source: String,
    /// Where the copy goes: beside the episode, under its name.
    pub destination: String,
}

impl View for CopyInstruction {
    type V = (Seq<char>, Seq<char>);

    open spec fn view(&self) -> (Seq<char>, Seq<char>) {
        (self.source@, self.destination@)
    }
}

/// The views of a list of copy instructions.
pub open spec fn instructions_view(v: Seq<CopyInstruction>) -> Seq<(Seq<char>, Seq<char>)> {
    v.map_values(|c: CopyInstruction| c@)
}

/// Where subtitle `sub` goes when it is paired with episode `ep`: the
/// episode's path with the subtitle's extension.
pub open spec fn destination_of(ep: EntryView, sub: EntryView) -> Seq<char> {
    crate::path::with_extension_of(ep.filepath, sub.extension)
}

/// The copy, as (source, destination), that pairing makes for episode `ep`:
/// the first subtitle with the episode's key decides. When it already sits
/// at its destination the episode is satisfied and nothing is copied;
/// otherwise it is copied there. No subtitle with the key: no copy.
pub open spec fn instruction_for(subs: Seq<EntryView>, ep: EntryView) -> Option<
    (Seq<char>, Seq<char>),
> {
    let candidates = indices_with_key(subs, ep.key);
    if candidates.len() == 0 {
        None
    } else {
        let sub = subs[candidates[0] as int];
        if destination_of(ep, sub) == sub.filepath {
            None
        } else {
            Some((sub.filepath, destination_of(ep, sub)))
        }
    }
}

/// The copies that pairing makes, in the order of the episodes.
pub open spec fn instructions(subs: Seq<EntryView>, eps: Seq<EntryView>) -> Seq<
    (Seq<char>, Seq<char>),
>
    decreases eps.len(),
{
    if eps.len() == 0 {
        seq![]
    } else {
        let rest = instructions(subs, eps.drop_last());
        match instruction_for(subs, eps.last()) {
            Some(c) => rest.push(c),
            None => rest,
        }
    }
}

/// Decides the copy for one episode, given the positions of the subtitles
/// that share its key.
fn pair_episode(subs: &Vec<FileInfo>, ep: &FileInfo, candidates: &Vec<usize>) -> (r: Option<
    CopyInstruction,
>)
    requires
        candidates@ == indices_with_key(crate::file::entries_view(subs@), ep.key@),
        candidates@.len() > 0,
    ensures
        match r {
            Some(c) => instruction_for(crate::file::entries_view(subs@), ep@) == Some(c@),
            None => instruction_for(crate::file::entries_view(subs@), ep@) is None,
        },
{
    let n = subs.len();
    proof {
        lemma_indices_in_range(crate::file::entries_view(subs@), ep.key@);
    }
    let first = candidates[0];
    assert(first < n);
    let sub = &subs[first];
    let destination = crate::path::with_extension(ep.filepath.as_str(), sub.extension.as_str());
    if destination == sub.filepath {
        None
    } else {
        Some(CopyInstruction { source: sub.filepath.clone(), destination })
    }
}

/// The copies that pair the subtitles `subs` with the episodes `eps`, one at
/// most per episode, in the order of `eps`.
pub fn pair(subs: &Vec<FileInfo>, eps: &Vec<FileInfo>) -> (r: Vec<CopyInstruction>)
    ensures
        instructions_view(r@) == instructions(
            crate::file::entries_view(subs@),
            crate::file::entries_view(eps@),
        ),
{
    let ghost sv = crate::file::entries_view(subs@);
    let ghost ev = crate::file::entries_view(eps@);
    let group = KeyGroup::build(subs);
    let mut ret: Vec<CopyInstruction> = Vec::new();
    let mut i: usize = 0;
    while i < eps.len()
        invariant
            i <= eps@.len(),
            group.wf(),
            sv == crate::file::entries_view(subs@),
            ev == crate::file::entries_view(eps@),
            forall|key: Seq<char>| #[trigger] group.group(key) == indices_with_key(sv, key),
            instructions_view(ret@) == instructions(sv, ev.take(i as int)),
        decreases eps@.len() - i,
    {
        let ghost before = ret@;
        assert(ev.take(i + 1).drop_last() =~= ev.take(i as int));
        assert(ev.take(i + 1).last() == eps@[i as int]@);
        let ep = &eps[i];
        if let Some(candidates) = group.lookup(&ep.key) {
            if let Some(c) = pair_episode(subs, ep, candidates) {
                ret.push(c);
                assert(instructions_view(ret@) =~= instructions_view(before).push(c@));
            }
        }
        i = i + 1;
    }
    assert(ev.take(eps@.len() as int) =~= ev);
    ret
}

/// The positions that `indices_with_key` gives are positions of `subs`, each
/// holding an entry with the key, and rising.
pub proof fn lemma_indices_in_range(subs: Seq<EntryView>, key: Seq<char>)
    requires
        subs.len() <= usize::MAX,
    ensures
        forall|j: int|
            0 <= j < indices_with_key(subs, key).len() ==> (#[trigger] indices_with_key(
                subs,
                key,
            )[j] as int) < subs.len() && subs[indices_with_key(subs, key)[j] as int].key == key,
        forall|a: int, b: int|
            0 <= a < b < indices_with_key(subs, key).len() ==> #[trigger] indices_with_key(
                subs,
                key,
            )[a] < #[trigger] indices_with_key(subs, key)[b],
    decreases subs.len(),
{
    if subs.len() > 0 {
        let rest = subs.drop_last();
        lemma_indices_in_range(rest, key);
        let r = indices_with_key(rest, key);
        assert(forall|j: int| 0 <= j < rest.len() ==> rest[j] == subs[j]);
        if subs.last().key == key {
            let all = r.push((subs.len() - 1) as usize);
            assert(all == indices_with_key(subs, key));
            assert(forall|j: int| 0 <= j < r.len() ==> all[j] == r[j]);
        }
    }
}

/// Grouping drops no subtitle: each entry is among the candidates of its
/// own key, so two entries with one key are both candidates for an episode
/// with that key.
pub proof fn lemma_grouping_keeps_all(subs: Seq<EntryView>, i: int)
    requires
        0 <= i < subs.len(),
        subs.len() <= usize::MAX,
    ensures
        indices_with_key(subs, subs[i].key).contains(i as usize),
    decreases subs.len(),
{
    let key = subs[i].key;
    if i == subs.len() - 1 {
        let r = indices_with_key(subs.drop_last(), key);
        assert(r.push(i as usize)[r.len() as int] == i as usize);
    } else {
        let rest = subs.drop_last();
        assert(rest[i] == subs[i]);
        lemma_grouping_keeps_all(rest, i);
        let r = indices_with_key(rest, key);
        let j = choose|j: int| 0 <= j < r.len() && r[j] == i as usize;
        if subs.last().key == key {
            assert(r.push((subs.len() - 1) as usize)[j] == i as usize);
        }
    }
}

/// An episode whose subtitle already sits where pairing would copy it gets
/// no copy: pairing gives the same copies with or without that episode.
pub proof fn lemma_in_place_gets_no_copy(subs: Seq<EntryView>, eps: Seq<EntryView>, e: int)
    requires
        0 <= e < eps.len(),
        indices_with_key(subs, eps[e].key).len() > 0,
        destination_of(eps[e], subs[indices_with_key(subs, eps[e].key)[0] as int])
            == subs[indices_with_key(subs, eps[e].key)[0] as int].filepath,
    ensures
        instructions(subs, eps) == instructions(subs, eps.remove(e)),
    decreases eps.len(),
{
    assert(instruction_for(subs, eps[e]) is None);
    if e == eps.len() - 1 {
        assert(eps.remove(e) =~= eps.drop_last());
    } else {
        let rest = eps.drop_last();
        assert(rest[e] == eps[e]);
        lemma_in_place_gets_no_copy(subs, rest, e);
        assert(eps.remove(e).drop_last() =~= rest.remove(e));
        assert(eps.remove(e).last() == eps.last());
    }
}

} // verus!

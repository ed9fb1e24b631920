//! A map from region tokens to whatever keeps the region alive.
//!
//! The pairs stand in a list in which no token occurs twice.

use crate::memory_region::MemoryRegionToken;
use vstd::prelude::*;

verus! {

/// Some pair of the list has this token.
pub open spec fn has_token<M>(
    entries: Seq<(MemoryRegionToken, M)>,
    token: MemoryRegionToken,
) -> bool {
    exists|i: int| 0 <= i < entries.len() && (#[trigger] entries[i]).0 == token
}

/// No token occurs twice in the list.
pub open spec fn distinct_tokens<M>(entries: Seq<(MemoryRegionToken, M)>) -> bool {
    forall|i: int, j: int|
        0 <= i < j < entries.len() ==> (#[trigger] entries[i]).0 != (#[trigger] entries[j]).0
}

/// The map that the list spells: each token that occurs goes to what stands
/// beside it.
pub open spec fn as_map<M>(entries: Seq<(MemoryRegionToken, M)>) -> Map<MemoryRegionToken, M> {
    Map::new(
        |token: MemoryRegionToken| has_token(entries, token),
        |token: MemoryRegionToken|
            entries[choose|i: int| 0 <= i < entries.len() && (#[trigger] entries[i]).0 == token].1,
    )
}

/// In a list without repeated tokens, a token goes to what stands beside it.
pub proof fn lemma_lookup<M>(entries: Seq<(MemoryRegionToken, M)>, i: int)
    requires
        distinct_tokens(entries),
        0 <= i < entries.len(),
    ensures
        as_map(entries).contains_key(entries[i].0),
        as_map(entries)[entries[i].0] == entries[i].1,
{
    let token = entries[i].0;
    let j = choose|j: int| 0 <= j < entries.len() && (#[trigger] entries[j]).0 == token;
    assert(j == i) by {
        if j < i {
            assert(entries[j].0 != entries[i].0);
        } else if i < j {
            assert(entries[i].0 != entries[j].0);
        }
    }
}

/// A list without repeated tokens spells a finite map with as many tokens as
/// the list has pairs.
pub proof fn lemma_len<M>(entries: Seq<(MemoryRegionToken, M)>)
    requires
        distinct_tokens(entries),
    ensures
        as_map(entries).dom().finite(),
        as_map(entries).dom().len() == entries.len(),
    decreases entries.len(),
{
    if entries.len() == 0 {
        assert(as_map(entries).dom() =~= Set::<MemoryRegionToken>::empty());
    } else {
        let rest = entries.drop_last();
        let last = entries.last();
        assert(distinct_tokens(rest)) by {
            assert forall|i: int, j: int| 0 <= i < j < rest.len() implies (
            #[trigger] rest[i]).0 != (#[trigger] rest[j]).0 by {
                assert(entries[i].0 != entries[j].0);
            }
        }
        lemma_len(rest);
        assert(!has_token(rest, last.0)) by {
            if has_token(rest, last.0) {
                let i = choose|i: int| 0 <= i < rest.len() && (#[trigger] rest[i]).0 == last.0;
                assert(entries[i].0 != entries[entries.len() - 1].0);
            }
        }
        assert(as_map(entries).dom() =~= as_map(rest).dom().insert(last.0)) by {
            assert forall|token: MemoryRegionToken|
                as_map(entries).dom().contains(token) <==> as_map(rest).dom().insert(
                    last.0,
                ).contains(token) by {
                if has_token(entries, token) {
                    let i = choose|i: int|
                        0 <= i < entries.len() && (#[trigger] entries[i]).0 == token;
                    if i < rest.len() {
                        assert(rest[i].0 == token);
                    }
                }
                if has_token(rest, token) {
                    let i = choose|i: int| 0 <= i < rest.len() && (#[trigger] rest[i]).0 == token;
                    assert(entries[i].0 == token);
                }
                if token == last.0 {
                    assert(entries[entries.len() - 1].0 == token);
                }
            }
        }
    }
}

/// A map from region tokens to handles of type `M`.
pub struct TokenMap<M> {
    entries: Vec<(MemoryRegionToken, M)>,
}

impl<M> View for TokenMap<M> {
    type V = Map<MemoryRegionToken, M>;

    closed spec fn view(&self) -> Map<MemoryRegionToken, M> {
        as_map(self.entries@)
    }
}

impl<M> TokenMap<M> {
    /// The map is valid: no token stands in its list twice.
    pub closed spec fn wf(&self) -> bool {
        distinct_tokens(self.entries@)
    }

    /// A valid map is finite.
    pub proof fn lemma_finite(&self)
        requires
            self.wf(),
        ensures
            self@.dom().finite(),
    {
        lemma_len(self.entries@);
    }

    /// The map without tokens.
    pub fn new() -> (map: Self)
        ensures
            map.wf(),
            map@ == Map::<MemoryRegionToken, M>::empty(),
    {
        let map = TokenMap { entries: Vec::new() };
        assert(map@ =~= Map::<MemoryRegionToken, M>::empty());
        map
    }

    /// How many tokens the map holds.
    pub fn len(&self) -> (len: usize)
        requires
            self.wf(),
        ensures
            len == self@.dom().len(),
    {
        proof {
            lemma_len(self.entries@);
        }
        self.entries.len()
    }

    fn find(&self, token: MemoryRegionToken) -> (at: usize)
        requires
            self.wf(),
        ensures
            at <= self.entries@.len(),
            at < self.entries@.len() ==> self.entries@[at as int].0 == token,
            at == self.entries@.len() ==> !has_token(self.entries@, token),
            (at < self.entries@.len()) == self@.contains_key(token),
    {
        let mut i: usize = 0;
        while i < self.entries.len()
            invariant
                i <= self.entries@.len(),
                forall|j: int| 0 <= j < i ==> (#[trigger] self.entries@[j]).0 != token,
            decreases self.entries@.len() - i,
        {
            let entry = &self.entries[i];
            if entry.0.addr == token.addr && entry.0.len == token.len && entry.0.rkey
                == token.rkey {
                return i;
            }
            i += 1;
        }
        i
    }

    /// Whether the map holds the token.
    pub fn contains_key(&self, token: MemoryRegionToken) -> (held: bool)
        requires
            self.wf(),
        ensures
            held == self@.contains_key(token),
    {
        self.find(token) < self.entries.len()
    }

    /// What the token goes to, if the map holds it.
    pub fn get(&self, token: MemoryRegionToken) -> (found: Option<&M>)
        requires
            self.wf(),
        ensures
            match found {
                Some(handle) => self@.contains_key(token) && *handle == self@[token],
                None => !self@.contains_key(token),
            },
    {
        let at = self.find(token);
        if at < self.entries.len() {
            proof {
                lemma_lookup(self.entries@, at as int);
            }
            Some(&self.entries[at].1)
        } else {
            None
        }
    }

    /// Lets the token go to `handle`, whatever it went to before.
    pub fn insert(&mut self, token: MemoryRegionToken, handle: M)
        requires
            old(self).wf(),
        ensures
            final(self).wf(),
            final(self)@ == old(self)@.insert(token, handle),
    {
        let at = self.find(token);
        let ghost before = self.entries@;
        if at < self.entries.len() {
            self.entries.set(at, (token, handle));
        } else {
            self.entries.push((token, handle));
        }
        proof {
            let after = self.entries@;
            assert(distinct_tokens(after)) by {
                assert forall|i: int, j: int| 0 <= i < j < after.len() implies (
                #[trigger] after[i]).0 != (#[trigger] after[j]).0 by {
                    if j < before.len() {
                        assert(before[i].0 != before[j].0);
                    } else {
                        assert(before[i].0 != token);
                    }
                }
            }
            let target = as_map(before).insert(token, handle);
            assert forall|key: MemoryRegionToken| as_map(after).contains_key(key)
                <==> target.contains_key(key) by {
                if has_token(after, key) {
                    let i = choose|i: int| 0 <= i < after.len() && (#[trigger] after[i]).0 == key;
                    if key != token {
                        assert(before[i].0 == key);
                    }
                }
                if has_token(before, key) {
                    let i = choose|i: int|
                        0 <= i < before.len() && (#[trigger] before[i]).0 == key;
                    assert(after[i].0 == key);
                }
                if key == token {
                    assert(after[at as int].0 == key);
                }
            }
            assert forall|key: MemoryRegionToken| as_map(after).contains_key(key) implies as_map(
                after,
            )[key] == target[key] by {
                let i = choose|i: int| 0 <= i < after.len() && (#[trigger] after[i]).0 == key;
                lemma_lookup(after, i);
                if key != token {
                    assert(before[i].0 == key);
                    lemma_lookup(before, i);
                } else {
                    lemma_lookup(after, at as int);
                }
            }
            assert(as_map(after) =~= target);
        }
    }

    /// Takes the token out of the map and returns what it went to, if the
    /// map held it.
    pub fn remove(&mut self, token: MemoryRegionToken) -> (removed: Option<M>)
        requires
            old(self).wf(),
        ensures
            final(self).wf(),
            final(self)@ == old(self)@.remove(token),
            match removed {
                Some(handle) => old(self)@.contains_key(token) && handle == old(self)@[token],
                None => !old(self)@.contains_key(token),
            },
    {
        let at = self.find(token);
        let ghost before = self.entries@;
        if at == self.entries.len() {
            proof {
                assert(as_map(before) =~= as_map(before).remove(token));
            }
            return None;
        }
        proof {
            lemma_lookup(before, at as int);
        }
        let entry = self.entries.remove(at);
        proof {
            let after = self.entries@;
            assert(after == before.remove(at as int));
            assert forall|i: int| 0 <= i < after.len() implies #[trigger] after[i] == before[if i
                < at {
                i
            } else {
                i + 1
            }] by {}
            assert(distinct_tokens(after)) by {
                assert forall|i: int, j: int| 0 <= i < j < after.len() implies (
                #[trigger] after[i]).0 != (#[trigger] after[j]).0 by {
                    let i0 = if i < at { i } else { i + 1 };
                    let j0 = if j < at { j } else { j + 1 };
                    assert(before[i0].0 != before[j0].0);
                }
            }
            let target = as_map(before).remove(token);
            assert forall|key: MemoryRegionToken| as_map(after).contains_key(key)
                <==> target.contains_key(key) by {
                if has_token(after, key) {
                    let i = choose|i: int| 0 <= i < after.len() && (#[trigger] after[i]).0 == key;
                    let i0 = if i < at { i } else { i + 1 };
                    assert(before[i0].0 == key);
                    if i0 < at {
                        assert(before[i0].0 != before[at as int].0);
                    } else {
                        assert(before[at as int].0 != before[i0].0);
                    }
                }
                if has_token(before, key) && key != token {
                    let i = choose|i: int|
                        0 <= i < before.len() && (#[trigger] before[i]).0 == key;
                    let i1 = if i < at { i } else { i - 1 };
                    assert(after[i1].0 == key);
                }
            }
            assert forall|key: MemoryRegionToken| as_map(after).contains_key(key) implies as_map(
                after,
            )[key] == target[key] by {
                let i = choose|i: int| 0 <= i < after.len() && (#[trigger] after[i]).0 == key;
                let i0 = if i < at { i } else { i + 1 };
                lemma_lookup(after, i);
                assert(before[i0].0 == key);
                lemma_lookup(before, i0);
            }
            assert(as_map(after) =~= target);
        }
        Some(entry.1)
    }
}

} // verus!

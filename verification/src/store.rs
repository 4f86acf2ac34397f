//! The engine's store of match states and of the mechs bound to it
//! (the in-memory store; the Redis-backed one lives with the service).

use vstd::prelude::*;
use crate::events::strings_view;
use crate::seqs::{first_index, lemma_first_index, lemma_first_index_unique, lemma_first_index_preserved, lemma_first_index_push};
use crate::state::{MatchState, MatchStateView};

verus! {

/// Why a store request failed.
#[derive(Debug, Clone, Copy, PartialEq, Eq, Structural)]
pub enum StoreError {
    NoSuchMatch,
}

impl StoreError {
    pub fn message(&self) -> (m: &'static str)
        ensures
            m@ == "No such match"@,
    {
        proof {
            reveal_strlit("No such match");
        }
        "No such match"
    }
}

/// The key under which a match's state is kept.
pub fn match_key(match_id: &str) -> (k: String)
    ensures
        k@ == "wasmdome:matches:"@ + match_id@ + ":state"@,
{
    String::from_str("wasmdome:matches:").concat(match_id).concat(":state")
}

/// The key under which the bound actors are kept.
pub fn actors_key() -> (k: String)
    ensures
        k@ == "wasmdome:actors"@,
{
    String::from_str("wasmdome:actors")
}

pub struct MatchStore {
    matches: Vec<(String, MatchState)>,
    bound: Vec<String>,
}

pub open spec fn is_match(id: Seq<char>) -> spec_fn((Seq<char>, MatchStateView)) -> bool {
    |e: (Seq<char>, MatchStateView)| e.0 == id
}

/// The stored match `id`, if any.
pub open spec fn stored(matches: Seq<(Seq<char>, MatchStateView)>, id: Seq<char>) -> Option<MatchStateView> {
    let i = first_index(matches, is_match(id));
    if i >= 0 {
        Some(matches[i].1)
    } else {
        None
    }
}

/// Stores match `id`, replacing an earlier state of it.
pub open spec fn store_put(matches: Seq<(Seq<char>, MatchStateView)>, id: Seq<char>, s: MatchStateView) -> Seq<(Seq<char>, MatchStateView)> {
    let i = first_index(matches, is_match(id));
    if i >= 0 {
        matches.update(i, (id, s))
    } else {
        matches.push((id, s))
    }
}

/// `s` without any occurrence of `x`.
pub open spec fn without(s: Seq<Seq<char>>, x: Seq<char>) -> Seq<Seq<char>>
    decreases s.len(),
{
    if s.len() == 0 {
        s
    } else if s.last() == x {
        without(s.drop_last(), x)
    } else {
        without(s.drop_last(), x).push(s.last())
    }
}

impl MatchStore {
    /// The stored matches.
    pub closed spec fn matches(&self) -> Seq<(Seq<char>, MatchStateView)> {
        self.matches@.map_values(|e: (String, MatchState)| (e.0@, e.1@))
    }

    /// The bound actors, each once.
    pub closed spec fn bound(&self) -> Seq<Seq<char>> {
        strings_view(self.bound@)
    }

    /// The bound actors are listed once each.
    pub open spec fn well_formed(&self) -> bool {
        self.bound().no_duplicates()
    }

    /// An empty store.
    pub fn new() -> (s: MatchStore)
        ensures
            s.matches() == Seq::<(Seq<char>, MatchStateView)>::empty(),
            s.bound() == Seq::<Seq<char>>::empty(),
            s.well_formed(),
    {
        let s = MatchStore { matches: Vec::new(), bound: Vec::new() };
        assert(s.matches() =~= Seq::<(Seq<char>, MatchStateView)>::empty());
        assert(s.bound() =~= Seq::<Seq<char>>::empty());
        s
    }

    fn bound_index(&self, actor: &str) -> (r: Option<usize>)
        ensures
            match r {
                Some(i) => i < self.bound@.len() && self.bound()[i as int] == actor@,
                None => !self.bound().contains(actor@),
            },
    {
        let mut i: usize = 0;
        while i < self.bound.len()
            invariant
                i <= self.bound.len(),
                forall|j: int| 0 <= j < i ==> self.bound()[j] != actor@,
            decreases self.bound.len() - i,
        {
            if crate::text::same_text(self.bound[i].as_str(), actor) {
                return Some(i);
            }
            i = i + 1;
        }
        None
    }

    /// Binds an actor to the engine.
    pub fn add_bound_actor(&mut self, actor: &str)
        ensures
            old(self).well_formed() ==> final(self).well_formed(),
            final(self).bound() == (if old(self).bound().contains(actor@) { old(self).bound() } else { old(self).bound().push(actor@) }),
            final(self).matches() == old(self).matches(),
    {
        if self.bound_index(actor).is_none() {
            let ghost before = self.bound();
            let a = String::from_str(actor);
            let mut bound: Vec<String> = Vec::new();
            std::mem::swap(&mut bound, &mut self.bound);
            bound.push(a);
            proof {
                assert(strings_view(bound@) =~= before.push(actor@));
                assert forall|x: int, y: int| before.no_duplicates() && 0 <= x < y < strings_view(bound@).len() implies strings_view(bound@)[x] != strings_view(bound@)[y] by {
                    if y == before.len() {
                        assert(before[x] != actor@);
                    }
                }
            }
            self.bound = bound;
        }
    }

    /// The bound actors.
    pub fn bound_actors(&self) -> (r: Vec<String>)
        ensures
            strings_view(r@) == self.bound(),
    {
        crate::events::clone_strings(&self.bound)
    }

    /// Unbinds an actor.
    pub fn remove_bound_actor(&mut self, actor: &str)
        ensures
            old(self).well_formed() ==> final(self).well_formed(),
            final(self).bound() == without(old(self).bound(), actor@),
            final(self).matches() == old(self).matches(),
    {
        let ghost old_bound = self.bound();
        let mut kept: Vec<String> = Vec::new();
        let mut i: usize = 0;
        while i < self.bound.len()
            invariant
                i <= self.bound.len(),
                old_bound == self.bound(),
                strings_view(kept@) == without(old_bound.subrange(0, i as int), actor@),
                old_bound.no_duplicates() ==> forall|x: int, y: int| 0 <= x < y < kept@.len() ==> strings_view(kept@)[x] != strings_view(kept@)[y],
                forall|x: int| 0 <= x < kept@.len() ==> old_bound.subrange(0, i as int).contains(#[trigger] strings_view(kept@)[x]),
            decreases self.bound.len() - i,
        {
            proof {
                assert(old_bound.subrange(0, i + 1).drop_last() =~= old_bound.subrange(0, i as int));
            }
            if !crate::text::same_text(self.bound[i].as_str(), actor) {
                let s = self.bound[i].clone();
                let ghost before = kept@;
                kept.push(s);
                proof {
                    assert(strings_view(kept@) =~= strings_view(before).push(s@));
                    assert forall|x: int| 0 <= x < kept@.len() implies old_bound.subrange(0, i + 1).contains(#[trigger] strings_view(kept@)[x]) by {
                        if x < before.len() {
                            let k = choose|k: int| 0 <= k < i && old_bound.subrange(0, i as int)[k] == strings_view(before)[x];
                            assert(old_bound.subrange(0, i + 1)[k] == strings_view(kept@)[x]);
                        } else {
                            assert(old_bound.subrange(0, i + 1)[i as int] == strings_view(kept@)[x]);
                        }
                    }
                    assert forall|x: int, y: int| old_bound.no_duplicates() && 0 <= x < y < kept@.len() implies strings_view(kept@)[x] != strings_view(kept@)[y] by {
                        if y == before.len() {
                            let k = choose|k: int| 0 <= k < i && old_bound.subrange(0, i as int)[k] == strings_view(kept@)[x];
                            assert(old_bound[k] == strings_view(kept@)[x]);
                            assert(old_bound[i as int] == strings_view(kept@)[y]);
                        }
                    }
                }
            } else {
                proof {
                    assert forall|x: int| 0 <= x < kept@.len() implies old_bound.subrange(0, i + 1).contains(#[trigger] strings_view(kept@)[x]) by {
                        let k = choose|k: int| 0 <= k < i && old_bound.subrange(0, i as int)[k] == strings_view(kept@)[x];
                        assert(old_bound.subrange(0, i + 1)[k] == strings_view(kept@)[x]);
                    }
                }
            }
            i = i + 1;
        }
        assert(old_bound.subrange(0, i as int) =~= old_bound);
        self.bound = kept;
    }

    fn match_index(&self, match_id: &str) -> (r: Option<usize>)
        ensures
            match r {
                Some(i) => i == first_index(self.matches(), is_match(match_id@)) && i < self.matches@.len(),
                None => first_index(self.matches(), is_match(match_id@)) == -1,
            },
    {
        let ghost v = self.matches();
        let mut i: usize = 0;
        while i < self.matches.len()
            invariant
                i <= self.matches.len(),
                v == self.matches(),
                v.len() == self.matches@.len(),
                forall|j: int| 0 <= j < i ==> !is_match(match_id@)(#[trigger] v[j]),
            decreases self.matches.len() - i,
        {
            if crate::text::same_text(self.matches[i].0.as_str(), match_id) {
                proof {
                    assert(v[i as int] == (self.matches@[i as int].0@, self.matches@[i as int].1@));
                    lemma_first_index_unique(v, is_match(match_id@), i as int);
                }
                return Some(i);
            }
            i = i + 1;
        }
        proof {
            lemma_first_index(v, is_match(match_id@));
            let k = first_index(v, is_match(match_id@));
            if k >= 0 {
                assert(is_match(match_id@)(v[k]));
            }
        }
        None
    }

    /// Saves the state of match `match_id`.
    pub fn save_match_state(&mut self, match_id: &str, state: MatchState)
        ensures
            old(self).well_formed() ==> final(self).well_formed(),
            final(self).matches() == store_put(old(self).matches(), match_id@, state@),
            final(self).bound() == old(self).bound(),
    {
        let ghost v = self.matches();
        let ghost sv = state@;
        let entry = (String::from_str(match_id), state);
        assert((entry.0@, entry.1@) == (match_id@, sv));
        match self.match_index(match_id) {
            Some(i) => {
                self.matches.set(i, entry);
                proof {
                    assert(self.matches() =~= v.update(i as int, (match_id@, sv)));
                }
            },
            None => {
                self.matches.push(entry);
                proof {
                    assert(self.matches() =~= v.push((match_id@, sv)));
                }
            },
        }
    }

    /// The saved state of match `match_id`.
    pub fn get_match_state(&self, match_id: &str) -> (r: Result<MatchState, StoreError>)
        ensures
            match stored(self.matches(), match_id@) {
                Some(s) => r matches Ok(m) && m@ == s,
                None => r == Err::<MatchState, StoreError>(StoreError::NoSuchMatch),
            },
    {
        match self.match_index(match_id) {
            Some(i) => {
                assert(self.matches()[i as int] == (self.matches@[i as int].0@, self.matches@[i as int].1@));
                Ok(self.matches[i].1.clone())
            },
            None => Err(StoreError::NoSuchMatch),
        }
    }
}

/// A saved match state is what the store gives back for that match, and
/// saving one match leaves the others as they were.
pub proof fn lemma_read_after_save(matches: Seq<(Seq<char>, MatchStateView)>, id: Seq<char>, s: MatchStateView, other: Seq<char>)
    requires
        other != id,
    ensures
        stored(store_put(matches, id, s), id) == Some(s),
        stored(store_put(matches, id, s), other) == stored(matches, other),
{
    let t = store_put(matches, id, s);
    let i = first_index(matches, is_match(id));
    lemma_first_index(matches, is_match(id));
    lemma_first_index(matches, is_match(other));
    if i >= 0 {
        assert forall|j: int| 0 <= j < matches.len() implies is_match(id)(#[trigger] matches[j]) == is_match(id)(t[j]) by {}
        assert forall|j: int| 0 <= j < matches.len() implies is_match(other)(#[trigger] matches[j]) == is_match(other)(t[j]) by {}
        lemma_first_index_preserved(matches, t, is_match(id));
        lemma_first_index_preserved(matches, t, is_match(other));
    } else {
        lemma_first_index_push(matches, (id, s), is_match(id));
        lemma_first_index_push(matches, (id, s), is_match(other));
        let k = first_index(matches, is_match(other));
        if k >= 0 {
            assert(t[k] == matches[k]);
        }
    }
}

/// Unbinding an actor leaves it unbound and every other binding as it was.
pub proof fn lemma_without(s: Seq<Seq<char>>, x: Seq<char>, y: Seq<char>)
    requires
        y != x,
    ensures
        !without(s, x).contains(x),
        without(s, x).contains(y) == s.contains(y),
    decreases s.len(),
{
    if s.len() > 0 {
        lemma_without(s.drop_last(), x, y);
        let w = without(s.drop_last(), x);
        assert(s =~= s.drop_last().push(s.last()));
        if s.last() != x {
            vstd::seq_lib::lemma_seq_contains_after_push(w, s.last(), y);
            vstd::seq_lib::lemma_seq_contains_after_push(w, s.last(), x);
            vstd::seq_lib::lemma_seq_contains_after_push(s.drop_last(), s.last(), y);
        } else {
            vstd::seq_lib::lemma_seq_contains_after_push(s.drop_last(), s.last(), y);
        }
    }
}

} // verus!

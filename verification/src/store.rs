//! The shared store's logic: reading the current state, wholesale validated
//! replacement, and swapping the two players of one setup. The surrounding
//! process wraps a `Store` in its own lock and persists the JSON text that
//! the codec produces after every accepted mutation.
use vstd::prelude::*;

use crate::model::{AllSetupsState, OverlayState, PlayerState, SpecAll, SpecOverlay, SpecPlayer};
use crate::text::{push_udec, spec_udec};

verus! {

/// Why a mutation was refused. No mutation takes place when one of these is
/// returned.
#[derive(Clone, Copy, Debug, PartialEq, Eq)]
pub enum StoreError {
    /// Some setup's best-of count is neither three nor five.
    InvalidBestOf,
    /// The given setup index does not name a slot.
    SetupIndexOutOfRange(usize),
}

/// The description a desktop shell shows for a refused mutation.
pub open spec fn spec_error_message(e: StoreError) -> Seq<char> {
    match e {
        StoreError::InvalidBestOf => "bestOf must be 3 or 5 for all setups"@,
        StoreError::SetupIndexOutOfRange(i) => "setup_index "@ + spec_udec(
            i as nat,
        ) + " out of range"@,
    }
}

impl StoreError {
    /// The description a desktop shell shows for this error.
    pub fn message(&self) -> (r: String)
        ensures
            r@ == spec_error_message(*self),
    {
        match self {
            StoreError::InvalidBestOf => "bestOf must be 3 or 5 for all setups".to_owned(),
            StoreError::SetupIndexOutOfRange(i) => {
                let mut out = "setup_index ".to_owned();
                push_udec(&mut out, *i as u64);
                out.append(" out of range");
                assert(out@ =~= spec_error_message(*self));
                out
            },
        }
    }
}

/// True when every setup's best-of count is an accepted one.
pub open spec fn all_best_of_ok(s: SpecAll) -> bool {
    forall|i: int|
        0 <= i < s.setups.len() ==> (#[trigger] s.setups[i]).meta.best_of == 3
            || s.setups[i].meta.best_of == 5
}

/// What a whole-state replacement leaves in the store: the new state when it
/// validates, the old state otherwise.
pub open spec fn spec_update(st: SpecAll, new: SpecAll) -> SpecAll {
    if all_best_of_ok(new) {
        new
    } else {
        st
    }
}

/// One player, with its display side overwritten.
pub open spec fn spec_with_side(p: SpecPlayer, side: Seq<char>) -> SpecPlayer {
    SpecPlayer { side: side, ..p }
}

/// One setup after a side swap: players exchanged, sides renormalized;
/// metadata and commentary untouched.
pub open spec fn spec_swap_setup(o: SpecOverlay) -> SpecOverlay {
    SpecOverlay {
        p1: spec_with_side(o.p2, "left"@),
        p2: spec_with_side(o.p1, "right"@),
        meta: o.meta,
        commentators: o.commentators,
    }
}

/// The whole state after swapping the sides of the setup at `i`.
pub open spec fn spec_swap(s: SpecAll, i: int) -> SpecAll {
    SpecAll { setups: s.setups.update(i, spec_swap_setup(s.setups[i])) }
}

/// The slot a swap request names: the given index, or the first slot.
pub open spec fn spec_requested_index(setup_index: Option<usize>) -> usize {
    match setup_index {
        Some(i) => i,
        None => 0,
    }
}

fn player_with_side(p: PlayerState, side: String) -> (r: PlayerState)
    ensures
        r@ == spec_with_side(p@, side@),
{
    let r = PlayerState {
        side: side,
        port: p.port,
        tag: p.tag,
        sponsor: p.sponsor,
        handle: p.handle,
        character: p.character,
        character_color: p.character_color,
        score: p.score,
        country_code: p.country_code,
    };
    assert(r@ =~= spec_with_side(p@, side@));
    r
}

/// The authoritative holder of the overlay state. One value of this type
/// lives for the process lifetime; every observer gets an independent copy.
pub struct Store {
    pub state: AllSetupsState,
}

impl View for Store {
    type V = SpecAll;

    open spec fn view(&self) -> SpecAll {
        self.state@
    }
}

impl Store {
    /// A store holding `initial` as the current state.
    pub fn new(initial: AllSetupsState) -> (r: Store)
        ensures
            r@ == initial@,
    {
        Store { state: initial }
    }

    /// An independent copy of the current state.
    pub fn get_state(&self) -> (r: AllSetupsState)
        ensures
            r@ == self@,
    {
        self.state.duplicate()
    }

    /// Replaces the whole state with `new_state` when every setup's best-of
    /// count is three or five; refuses it and changes nothing otherwise. On
    /// success the accepted state is handed back.
    pub fn update_state(&mut self, new_state: AllSetupsState) -> (r: Result<
        AllSetupsState,
        StoreError,
    >)
        ensures
            final(self)@ == spec_update(old(self)@, new_state@),
            all_best_of_ok(new_state@) ==> (r matches Ok(st) && st@ == new_state@ && final(self)@
                == new_state@),
            !all_best_of_ok(new_state@) ==> r == Err::<AllSetupsState, StoreError>(
                StoreError::InvalidBestOf,
            ) && final(self)@ == old(self)@,
    {
        let mut i: usize = 0;
        while i < new_state.setups.len()
            invariant
                i <= new_state.setups.len(),
                forall|j: int|
                    0 <= j < i ==> (#[trigger] new_state@.setups[j]).meta.best_of == 3
                        || new_state@.setups[j].meta.best_of == 5,
            decreases new_state.setups.len() - i,
        {
            let b = new_state.setups[i].meta.best_of;
            if b != 3 && b != 5 {
                assert(new_state@.setups[i as int].meta.best_of == b);
                assert(!all_best_of_ok(new_state@));
                return Err(StoreError::InvalidBestOf);
            }
            i += 1;
        }
        assert(all_best_of_ok(new_state@));
        self.state = new_state.duplicate();
        Ok(new_state)
    }

    /// Exchanges the two players of the setup the request names (the first
    /// slot when no index is given), renormalizes their sides, and hands back
    /// a copy of the whole updated state. Refuses an index with no slot and
    /// changes nothing in that case.
    pub fn swap_sides(&mut self, setup_index: Option<usize>) -> (r: Result<
        AllSetupsState,
        StoreError,
    >)
        ensures
            spec_requested_index(setup_index) < old(self)@.setups.len() ==> (final(self)@
                == spec_swap(old(self)@, spec_requested_index(setup_index) as int) && (r matches Ok(
                st,
            ) && st@ == final(self)@)),
            spec_requested_index(setup_index) >= old(self)@.setups.len() ==> r == Err::<
                AllSetupsState,
                StoreError,
            >(StoreError::SetupIndexOutOfRange(spec_requested_index(setup_index))) && final(self)@
                == old(self)@,
    {
        let idx = match setup_index {
            Some(i) => i,
            None => 0,
        };
        if idx >= self.state.setups.len() {
            return Err(StoreError::SetupIndexOutOfRange(idx));
        }
        let current = self.state.setups[idx].duplicate();
        let OverlayState { p1, p2, meta, commentators } = current;
        let swapped = OverlayState {
            p1: player_with_side(p2, "left".to_owned()),
            p2: player_with_side(p1, "right".to_owned()),
            meta,
            commentators,
        };
        proof {
            assert(swapped@ =~= spec_swap_setup(old(self)@.setups[idx as int]));
        }
        self.state.setups.set(idx, swapped);
        proof {
            assert(self@.setups =~= spec_swap(old(self)@, idx as int).setups);
            assert(self@ =~= spec_swap(old(self)@, idx as int));
        }
        Ok(self.state.duplicate())
    }
}

/// Accepted updates are returned as given: replacing the state with a
/// validating `new` and then reading it back yields `new` itself.
pub proof fn lemma_update_then_get(st: SpecAll, new: SpecAll)
    requires
        all_best_of_ok(new),
    ensures
        spec_update(st, new) == new,
{
}

/// Rejected updates leave no trace: when some setup's best-of count is
/// invalid, the state a later read returns is the prior state, unchanged.
pub proof fn lemma_update_rejected(st: SpecAll, new: SpecAll)
    requires
        !all_best_of_ok(new),
    ensures
        spec_update(st, new) == st,
{
}

/// A side swap at a valid index exchanges exactly the two players of that
/// setup — each keeping every field but the renormalized side — and leaves
/// every other setup, and the setup's own metadata and commentary, unchanged.
pub proof fn lemma_swap_sides_effect(s: SpecAll, i: int)
    requires
        0 <= i < s.setups.len(),
    ensures
        spec_swap(s, i).setups.len() == s.setups.len(),
        spec_swap(s, i).setups[i].p1 == spec_with_side(s.setups[i].p2, "left"@),
        spec_swap(s, i).setups[i].p2 == spec_with_side(s.setups[i].p1, "right"@),
        spec_swap(s, i).setups[i].meta == s.setups[i].meta,
        spec_swap(s, i).setups[i].commentators == s.setups[i].commentators,
        forall|j: int| 0 <= j < s.setups.len() && j != i ==> spec_swap(s, i).setups[j] == s.setups[j],
{
}

/// Swapping the same setup twice restores it: both players return to their
/// original fields, except that the sides end renormalized.
pub proof fn lemma_swap_sides_involution(s: SpecAll, i: int)
    requires
        0 <= i < s.setups.len(),
    ensures
        spec_swap(spec_swap(s, i), i).setups[i].p1 == spec_with_side(s.setups[i].p1, "left"@),
        spec_swap(spec_swap(s, i), i).setups[i].p2 == spec_with_side(s.setups[i].p2, "right"@),
{
}

} // verus!

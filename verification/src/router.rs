//! The event router: which blocks a signal or a click is for.

use crate::block::{Block, ClickOutcome};
use crate::error::Error;
use vstd::prelude::*;

verus! {

/// A click on the bar, attributed by the bar host to the block that emitted
/// the text under the pointer.
#[derive(Clone, Copy, Debug, PartialEq, Eq, Structural)]
pub struct ClickEvent {
    pub id: usize,
    pub button: u8,
}

/// For each block, by block id, the signal number it subscribed to, if any.
pub struct EventRouter {
    signals: Vec<Option<i32>>,
}

impl View for EventRouter {
    type V = Seq<Option<i32>>;

    closed spec fn view(&self) -> Seq<Option<i32>> {
        self.signals@
    }
}

/// What telling one block of a signal came to.
#[derive(Debug, PartialEq, Eq)]
pub struct Signalled {
    /// The block that was told.
    pub id: usize,
    /// Whether its handler succeeded.
    pub result: Result<(), Error>,
}

/// Block `id` is among those that were told.
pub open spec fn told(outcomes: Seq<Signalled>, id: usize) -> bool {
    exists|k: int| 0 <= k < outcomes.len() && outcomes[k].id == id
}

/// Block `id` is one of `signals.len()` blocks and subscribed to `signal`.
pub open spec fn subscribed(signals: Seq<Option<i32>>, id: usize, signal: i32) -> bool {
    id < signals.len() && signals[id as int] == Some(signal)
}

impl EventRouter {
    /// A router for the blocks whose subscriptions are given in block order.
    pub fn new(signals: Vec<Option<i32>>) -> (r: EventRouter)
        ensures
            r@ == signals@,
    {
        EventRouter { signals }
    }

    /// The number of blocks.
    pub fn blocks(&self) -> (n: usize)
        ensures
            n == self@.len(),
    {
        self.signals.len()
    }

    /// The blocks that are to be told of `signal`: all that subscribed to
    /// it, in ascending order of their ids.
    pub fn subscribers(&self, signal: i32) -> (ids: Vec<usize>)
        ensures
            forall|id: usize| ids@.contains(id) <==> subscribed(self@, id, signal),
            forall|i: int, j: int| 0 <= i < j < ids@.len() ==> ids@[i] < ids@[j],
    {
        let mut ids: Vec<usize> = Vec::new();
        let mut i: usize = 0;
        while i < self.signals.len()
            invariant
                i <= self.signals@.len(),
                forall|id: usize| ids@.contains(id) <==> id < i && subscribed(self@, id, signal),
                forall|a: int, b: int| 0 <= a < b < ids@.len() ==> ids@[a] < ids@[b],
            decreases self.signals@.len() - i,
        {
            let hit = match self.signals[i] {
                Some(number) => number == signal,
                None => false,
            };
            if hit {
                let ghost before = ids@;
                ids.push(i);
                proof {
                    assert forall|id: usize| ids@.contains(id) <==> id < i + 1 && subscribed(
                        self@,
                        id,
                        signal,
                    ) by {
                        if ids@.contains(id) {
                            let k: int = choose|k: int| 0 <= k < ids@.len() && ids@[k] == id;
                            if k < before.len() {
                                assert(before.contains(id));
                            }
                        }
                        if id < i && subscribed(self@, id, signal) {
                            assert(before.contains(id));
                            let k: int = choose|k: int| 0 <= k < before.len() && before[k] == id;
                            assert(ids@[k] == id);
                        }
                        if id == i {
                            assert(ids@[before.len() as int] == id);
                        }
                    }
                    assert forall|a: int, b: int| 0 <= a < b < ids@.len() implies ids@[a]
                        < ids@[b] by {
                        if b == before.len() {
                            assert(before.contains(before[a]));
                        }
                    }
                }
            }
            i += 1;
        }
        ids
    }

    /// The block that `event` is for: the one it names, if there is such a
    /// block. No other block is ever told of the click.
    pub fn click_target(&self, event: &ClickEvent) -> (target: Option<usize>)
        ensures
            target == (if event.id < self@.len() {
                Some(event.id)
            } else {
                None
            }),
    {
        if event.id < self.signals.len() {
            Some(event.id)
        } else {
            None
        }
    }

    /// Tells every block that subscribed to `signal` of it, in ascending
    /// order of their ids: the handler of each is called once, with the
    /// signal and `now`, and what it returns is handed back. A handler that
    /// fails stops nothing: the blocks after it are told all the same. No
    /// other block is touched.
    pub fn deliver_signal<B: Block>(
        &self,
        blocks: &mut Vec<B>,
        signal: i32,
        now: u64,
    ) -> (outcomes: Vec<Signalled>)
        ensures
            final(blocks)@.len() == old(blocks)@.len(),
            forall|i: int|
                0 <= i < old(blocks)@.len() && !subscribed(self@, i as usize, signal)
                    ==> final(blocks)@[i] == old(blocks)@[i],
            forall|id: usize|
                told(outcomes@, id) <==> subscribed(self@, id, signal) && id < old(blocks)@.len(),
            forall|a: int, b: int|
                0 <= a < b < outcomes@.len() ==> outcomes@[a].id < outcomes@[b].id,
            forall|k: int|
                #![trigger outcomes@[k]]
                0 <= k < outcomes@.len() ==> exists|b: &mut B|
                    #![trigger call_ensures(B::signal, (b, signal, now), outcomes@[k].result)]
                    mut_ref_current(b) == old(blocks)@[outcomes@[k].id as int] && mut_ref_future(b)
                        == final(blocks)@[outcomes@[k].id as int] && call_ensures(
                        B::signal,
                        (b, signal, now),
                        outcomes@[k].result,
                    ),
    {
        let mut outcomes: Vec<Signalled> = Vec::new();
        let mut i: usize = 0;
        while i < self.signals.len() && i < blocks.len()
            invariant
                i <= self.signals@.len(),
                i <= blocks@.len(),
                blocks@.len() == old(blocks)@.len(),
                forall|j: int|
                    0 <= j < blocks@.len() && (j >= i || !subscribed(self@, j as usize, signal))
                        ==> blocks@[j] == old(blocks)@[j],
                forall|id: usize|
                    told(outcomes@, id) <==> id < i && subscribed(self@, id, signal),
                forall|a: int, b: int|
                    0 <= a < b < outcomes@.len() ==> outcomes@[a].id < outcomes@[b].id,
                forall|k: int|
                    #![trigger outcomes@[k]]
                    0 <= k < outcomes@.len() ==> outcomes@[k].id < i && exists|b: &mut B|
                        #![trigger call_ensures(B::signal, (b, signal, now), outcomes@[k].result)]
                        mut_ref_current(b) == old(blocks)@[outcomes@[k].id as int]
                            && mut_ref_future(b) == blocks@[outcomes@[k].id as int] && call_ensures(
                            B::signal,
                            (b, signal, now),
                            outcomes@[k].result,
                        ),
            decreases self.signals@.len() - i,
        {
            let hit = match self.signals[i] {
                Some(number) => number == signal,
                None => false,
            };
            if hit {
                let ghost before = outcomes@;
                let result = blocks[i].signal(signal, now);
                outcomes.push(Signalled { id: i, result });
                proof {
                    assert(outcomes@[before.len() as int].id == i);
                    assert forall|id: usize| told(outcomes@, id) <==> id < i + 1 && subscribed(
                        self@,
                        id,
                        signal,
                    ) by {
                        if told(outcomes@, id) {
                            let k: int = choose|k: int|
                                0 <= k < outcomes@.len() && outcomes@[k].id == id;
                            if k < before.len() {
                                assert(before[k].id == id);
                                assert(told(before, id));
                            }
                        }
                        if id < i && subscribed(self@, id, signal) {
                            assert(told(before, id));
                            let k: int = choose|k: int| 0 <= k < before.len() && before[k].id == id;
                            assert(outcomes@[k].id == id);
                        }
                    }
                    assert forall|a: int, b: int|
                        0 <= a < b < outcomes@.len() implies outcomes@[a].id
                        < outcomes@[b].id by {
                        if b == before.len() {
                            assert(told(before, before[a].id));
                        }
                    }
                }
            }
            i += 1;
        }
        outcomes
    }

    /// Tells the block that `event` names of the click, if there is such a
    /// block: its handler is called with the event and `now`, and what it
    /// returns is handed back. No other block is touched.
    pub fn deliver_click<B: Block>(
        &self,
        blocks: &mut Vec<B>,
        event: &ClickEvent,
        now: u64,
    ) -> (outcome: Option<ClickOutcome>)
        ensures
            final(blocks)@.len() == old(blocks)@.len(),
            forall|i: int|
                0 <= i < old(blocks)@.len() && i != event.id
                    ==> final(blocks)@[i] == old(blocks)@[i],
            outcome is Some <==> event.id < self@.len() && event.id < old(blocks)@.len(),
            outcome is None ==> final(blocks)@ == old(blocks)@,
            outcome matches Some(o) ==> exists|b: &mut B|
                #![trigger call_ensures(B::click, (b, event, now), o)]
                mut_ref_current(b) == old(blocks)@[event.id as int] && mut_ref_future(b)
                    == final(blocks)@[event.id as int] && call_ensures(
                    B::click,
                    (b, event, now),
                    o,
                ),
    {
        if event.id < self.signals.len() && event.id < blocks.len() {
            Some(blocks[event.id].click(event, now))
        } else {
            None
        }
    }
}

} // verus!

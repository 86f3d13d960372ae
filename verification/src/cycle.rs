//! A list of commands that is walked round and round.

use vstd::arithmetic::div_mod::{
    lemma_fundamental_div_mod, lemma_fundamental_div_mod_converse, lemma_mod_add_multiples_vanish,
    lemma_small_mod,
};
use vstd::prelude::*;

verus! {

/// Commands in a fixed order, and the place of the current one. After the
/// last command the first one is current again.
pub struct CommandCycle {
    items: Vec<String>,
    position: usize,
}

/// The mathematical value of a [`CommandCycle`].
pub struct CycleView {
    pub items: Seq<Seq<char>>,
    pub position: nat,
}

impl CycleView {
    /// The current command; `None` where there are no commands.
    pub open spec fn current(self) -> Option<Seq<char>> {
        if self.items.len() == 0 {
            None
        } else {
            Some(self.items[self.position as int])
        }
    }

    /// The cycle after a step to the next command.
    pub open spec fn advanced(self) -> CycleView {
        if self.items.len() == 0 {
            self
        } else {
            CycleView {
                items: self.items,
                position: if self.position + 1 < self.items.len() {
                    self.position + 1
                } else {
                    0
                },
            }
        }
    }

    /// The position is that of a command, or 0 where there is none.
    pub open spec fn wf(self) -> bool {
        if self.items.len() == 0 {
            self.position == 0
        } else {
            self.position < self.items.len()
        }
    }
}

impl View for CommandCycle {
    type V = CycleView;

    closed spec fn view(&self) -> CycleView {
        CycleView { items: self.items.deep_view(), position: self.position as nat }
    }
}

impl CommandCycle {
    #[verifier::type_invariant]
    spec fn in_range(&self) -> bool {
        if self.items@.len() == 0 {
            self.position == 0
        } else {
            self.position < self.items@.len()
        }
    }

    /// A cycle over `items` that starts at the first of them.
    pub fn new(items: Vec<String>) -> (cycle: CommandCycle)
        ensures
            cycle@ == (CycleView { items: items.deep_view(), position: 0 }),
            cycle@.wf(),
    {
        CommandCycle { items, position: 0 }
    }

    /// The current command; `None` where there are no commands.
    pub fn peek(&self) -> (current: Option<&String>)
        ensures
            self@.wf(),
            match current {
                Some(command) => self@.current() == Some(command@),
                None => self@.current() is None,
            },
    {
        proof {
            use_type_invariant(self);
        }
        if self.items.len() == 0 {
            None
        } else {
            Some(&self.items[self.position])
        }
    }

    /// Steps to the next command, and from the last to the first.
    pub fn advance(&mut self)
        ensures
            final(self)@ == old(self)@.advanced(),
            final(self)@.wf(),
    {
        proof {
            use_type_invariant(&*self);
        }
        let n: usize = self.items.len();
        if n > 0 {
            if self.position + 1 < n {
                self.position = self.position + 1;
            } else {
                self.position = 0;
            }
        }
    }
}

/// The cycle after `steps` steps.
pub open spec fn advanced_by(c: CycleView, steps: nat) -> CycleView
    decreases steps,
{
    if steps == 0 {
        c
    } else {
        advanced_by(c, (steps - 1) as nat).advanced()
    }
}

/// The commands come round for ever: after `steps` steps the cycle stands
/// `steps` places further on, counted round the list. So after as many
/// steps as there are commands the same command is current again.
pub proof fn lemma_cycle_returns(c: CycleView, steps: nat)
    requires
        c.wf(),
    ensures
        advanced_by(c, steps).wf(),
        advanced_by(c, steps).items == c.items,
        c.items.len() > 0 ==> advanced_by(c, steps).position == (c.position + steps)
            % c.items.len(),
        steps == c.items.len() ==> advanced_by(c, steps) == c,
    decreases steps,
{
    if steps > 0 {
        lemma_cycle_returns(c, (steps - 1) as nat);
        if c.items.len() > 0 {
            let n: int = c.items.len() as int;
            let start: int = c.position as int + steps as int - 1;
            let p: int = advanced_by(c, (steps - 1) as nat).position as int;
            assert(p == start % n);
            lemma_fundamental_div_mod(start, n);
            if p + 1 < n {
                assert(start + 1 == (start / n) * n + (p + 1)) by (nonlinear_arith)
                    requires
                        start == n * (start / n) + p,
                ;
                lemma_fundamental_div_mod_converse(start + 1, n, start / n, p + 1);
            } else {
                assert(start + 1 == (start / n + 1) * n + 0) by (nonlinear_arith)
                    requires
                        start == n * (start / n) + (n - 1),
                ;
                lemma_fundamental_div_mod_converse(start + 1, n, start / n + 1, 0);
            }
            if steps == c.items.len() {
                lemma_mod_add_multiples_vanish(c.position as int, n);
                lemma_small_mod(c.position, c.items.len());
            }
        }
    } else if c.items.len() > 0 {
        lemma_small_mod(c.position, c.items.len());
    }
}

} // verus!

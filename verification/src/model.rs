//! The machine as mathematics: a tape configuration, what one transition
//! does to it, and what a run of a rule table does to it.

use crate::action::{Action, Move, Rule};
use vstd::prelude::*;

verus! {

/// Why a transition cannot be completed.
pub enum Fault {
    /// The cursor is absent or lies beyond the last cell.
    NoCursor,
    /// The cursor is on the first cell and the move is to the left.
    LeftEdge,
    /// The cursor is on the last cell and the move is to the right.
    RightEdge,
}

/// A configuration of the machine.
pub struct TapeView {
    /// The cells, in index order.
    pub cells: Seq<char>,
    /// Where the cursor is, if anywhere.
    pub cursor: Option<nat>,
    /// The index of the current state in the rule table.
    pub state: nat,
    /// Whether a transition has halted the machine.
    pub halted: bool,
    /// How many transitions have been completed.
    pub steps: nat,
}

impl TapeView {
    /// The cursor is present and on a cell.
    pub open spec fn on_tape(self) -> bool {
        self.cursor matches Some(p) && p < self.cells.len()
    }

    /// The index of the cell under the cursor.
    pub open spec fn head(self) -> int
        recommends
            self.on_tape(),
    {
        self.cursor->0 as int
    }

    /// The symbol under the cursor.
    pub open spec fn scanned(self) -> char
        recommends
            self.on_tape(),
    {
        self.cells[self.head()]
    }

    /// How many cells, from the first, the count of completed transitions
    /// vouches for: one fewer than the count, and never more than there
    /// are.
    pub open spec fn shown_cells(self) -> nat {
        if self.steps == 0 {
            0
        } else if self.steps - 1 <= self.cells.len() {
            (self.steps - 1) as nat
        } else {
            self.cells.len()
        }
    }

    /// Whether the move of `a` would take the cursor off the tape, and at
    /// which end.
    pub open spec fn blocked(self, a: Action) -> Option<Fault>
        recommends
            self.on_tape(),
    {
        match a.goto {
            Move::Left => if self.head() == 0 {
                Some(Fault::LeftEdge)
            } else {
                None
            },
            Move::Right => if self.head() + 1 == self.cells.len() {
                Some(Fault::RightEdge)
            } else {
                None
            },
            Move::Halt => None,
        }
    }

    /// The configuration once `a` has been applied with the cursor on the
    /// tape. The write always lands. A blocked move changes nothing else;
    /// otherwise the cursor moves or the machine halts, the transition is
    /// counted and the state of `a` is entered.
    pub open spec fn after(self, a: Action) -> TapeView
        recommends
            self.on_tape(),
    {
        let cells = self.cells.update(self.head(), a.write);
        if self.blocked(a) is Some {
            TapeView { cells, ..self }
        } else {
            TapeView {
                cells,
                cursor: match a.goto {
                    Move::Left => Some((self.head() - 1) as nat),
                    Move::Right => Some((self.head() + 1) as nat),
                    Move::Halt => self.cursor,
                },
                state: a.next,
                halted: a.goto == Move::Halt,
                steps: self.steps + 1,
            }
        }
    }

    /// The fault, if any, that one transition under `rule` meets. A halted
    /// machine meets none.
    pub open spec fn fault(self, rule: Rule) -> Option<Fault> {
        if self.halted {
            None
        } else if !self.on_tape() {
            Some(Fault::NoCursor)
        } else {
            self.blocked(rule(self.scanned()))
        }
    }

    /// One transition under `rule` completes: the machine is running and
    /// meets no fault.
    pub open spec fn advances(self, rule: Rule) -> bool {
        !self.halted && self.fault(rule) is None
    }

    /// The configuration after one transition under `rule`. A halted
    /// machine, and one whose cursor is off the tape, stay as they are.
    pub open spec fn step(self, rule: Rule) -> TapeView {
        if self.halted || !self.on_tape() {
            self
        } else {
            self.after(rule(self.scanned()))
        }
    }

    /// Within `fuel` completed transitions the run comes to an end, by a
    /// halt or by a fault, and until then the current state is always a
    /// state of the table.
    pub open spec fn settles(self, rules: Seq<Rule>, fuel: nat) -> bool
        decreases fuel,
    {
        self.halted || (self.state < rules.len() && (self.fault(rules[self.state as int]) is Some
            || (fuel > 0 && self.step(rules[self.state as int]).settles(
            rules,
            (fuel - 1) as nat,
        ))))
    }

    /// The configuration in which a run of at most `fuel` completed
    /// transitions leaves the machine. The run ends early at a halt, at a
    /// fault (whose write has landed) and at a state outside the table.
    pub open spec fn run(self, rules: Seq<Rule>, fuel: nat) -> TapeView
        decreases fuel,
    {
        if self.halted || self.state >= rules.len() {
            self
        } else if self.fault(rules[self.state as int]) is Some {
            self.step(rules[self.state as int])
        } else if fuel == 0 {
            self
        } else {
            self.step(rules[self.state as int]).run(rules, (fuel - 1) as nat)
        }
    }

    /// The fault, if any, at which the run of at most `fuel` completed
    /// transitions ends.
    pub open spec fn run_fault(self, rules: Seq<Rule>, fuel: nat) -> Option<Fault>
        decreases fuel,
    {
        if self.halted || self.state >= rules.len() {
            None
        } else if self.fault(rules[self.state as int]) is Some {
            self.fault(rules[self.state as int])
        } else if fuel == 0 {
            None
        } else {
            self.step(rules[self.state as int]).run_fault(rules, (fuel - 1) as nat)
        }
    }
}

} // verus!

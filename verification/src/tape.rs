//! The engine: a tape of fixed length with its cursor and current state,
//! driven by a table of transition functions.

use crate::action::{table_follows, MachineState, Move, Rule, Transition};
use crate::model::{Fault, TapeView};
use vstd::prelude::*;
use vstd::string::StringExecFns;
use vstd::std_specs::iter::IteratorSpec;

verus! {

/// The number of cells of every tape.
pub const TAPE_LEN: usize = 256;

/// Why a transition could not be completed.
#[derive(Debug)]
pub enum MachineError {
    /// The cursor is not on the tape, or the move would take it off. The
    /// message says which.
    OutOfBound(String),
}

impl MachineError {
    /// The message that reports `fault`.
    pub open spec fn message(fault: Fault) -> Seq<char> {
        match fault {
            Fault::NoCursor => "Position is None."@,
            Fault::LeftEdge => "You can not got left."@,
            Fault::RightEdge => "You cannot go right."@,
        }
    }

    /// The error carries the message that reports `fault`.
    pub open spec fn tells(&self, fault: Fault) -> bool {
        self matches MachineError::OutOfBound(m) && m@ == Self::message(fault)
    }

    fn of(fault: Fault) -> (e: Self)
        ensures
            e.tells(fault),
    {
        match fault {
            Fault::NoCursor => MachineError::OutOfBound(String::from_str("Position is None.")),
            Fault::LeftEdge => MachineError::OutOfBound(String::from_str("You can not got left.")),
            Fault::RightEdge => MachineError::OutOfBound(String::from_str("You cannot go right.")),
        }
    }
}

/// `res` is `Ok` where there is no fault, and the error that reports the
/// fault where there is one.
pub open spec fn reports(res: Result<(), MachineError>, fault: Option<Fault>) -> bool {
    match fault {
        None => res is Ok,
        Some(f) => res matches Err(e) && e.tells(f),
    }
}

/// `String::push` of std puts the character at the end of the string and
/// leaves what was there in place.
pub assume_specification[ String::push ](s: &mut String, c: char)
    ensures
        final(s)@ == old(s)@.push(c),
;

/// The text that shows the first `count` of `cells`: each as a space, the
/// symbol in square brackets, and a space.
pub open spec fn shown(cells: Seq<char>, count: nat) -> Seq<char>
    decreases count,
{
    if count == 0 {
        Seq::empty()
    } else {
        shown(cells, (count - 1) as nat) + seq![' ', '[', cells[count - 1], ']', ' ']
    }
}

/// A tape of [`TAPE_LEN`] cells with the machine's cursor, current state,
/// halted flag and count of completed transitions.
#[derive(Debug)]
pub struct Tape {
    /// The cells, in index order.
    pub body: [char; 256],
    pos: Option<usize>,
    state_pos: usize,
    halted: bool,
    len: usize,
}

impl View for Tape {
    type V = TapeView;

    closed spec fn view(&self) -> TapeView {
        TapeView {
            cells: self.body@,
            cursor: match self.pos {
                Some(p) => Some(p as nat),
                None => None,
            },
            state: self.state_pos as nat,
            halted: self.halted,
            steps: self.len as nat,
        }
    }
}

impl Tape {
    /// A tape whose every cell holds `c`, with the cursor at `pos`, in
    /// state 0, not halted. A `pos` beyond the last cell is accepted here
    /// and faults at the first transition.
    pub fn new(c: char, pos: usize) -> (t: Self)
        ensures
            t@ == (TapeView {
                cells: Seq::new(TAPE_LEN as nat, |i: int| c),
                cursor: Some(pos as nat),
                state: 0,
                halted: false,
                steps: 0,
            }),
    {
        let t = Self { body: [c; 256], pos: Some(pos), state_pos: 0, halted: false, len: 0 };
        assert(t.body@ =~= Seq::new(TAPE_LEN as nat, |i: int| c));
        t
    }

    /// The cell at index `i`, for the caller to read or overwrite.
    pub fn get_mut(&mut self, i: usize) -> (cell: &mut char)
        requires
            i < TAPE_LEN,
        ensures
            *cell == old(self)@.cells[i as int],
            final(self)@ == (TapeView {
                cells: old(self)@.cells.update(i as int, *final(cell)),
                ..old(self)@
            }),
    {
        &mut self.body[i]
    }

    /// The index of the current state: after a run, the state that the last
    /// completed transition entered.
    pub fn get_final_pos(&self) -> (s: usize)
        ensures
            s == self@.state,
    {
        self.state_pos
    }

    /// The cells in index order, from the first to the last. The iterator
    /// borrows the tape and can be asked for again and again.
    pub fn iter(&self) -> (cells: std::slice::Iter<'_, char>)
        ensures
            cells.remaining() == self@.cells.as_ref(),
            cells.obeys_prophetic_iter_laws(),
            cells.decrease() is Some,
            cells.initial_value_relation(&cells),
    {
        self.body.iter()
    }

    /// The tape as text: the cells that the count of completed transitions
    /// vouches for, which are all cells before index count - 1, in index
    /// order and each as [`shown`] writes it. A tape on which no transition
    /// has been completed shows as the empty text.
    pub fn render(&self) -> (text: String)
        ensures
            text@ == shown(self@.cells, self@.shown_cells()),
    {
        let mut text = String::new();
        let mut i: usize = 0;
        while i < TAPE_LEN && i + 1 < self.len
            invariant
                i <= TAPE_LEN,
                i <= self@.shown_cells(),
                text@ == shown(self@.cells, i as nat),
            decreases TAPE_LEN - i,
        {
            proof {
                reveal_strlit(" [");
                reveal_strlit("] ");
            }
            let ghost so_far = text@;
            text.append(" [");
            text.push(self.body[i]);
            text.append("] ");
            assert(text@ =~= so_far + seq![' ', '[', self@.cells[i as int], ']', ' ']);
            i += 1;
        }
        text
    }

    /// Whether a transition has halted the machine.
    pub fn is_halted(&self) -> (b: bool)
        ensures
            b == self@.halted,
    {
        self.halted
    }

    /// Applies `action`, which the current state chose for the symbol at
    /// `pos`, the cursor's place.
    fn apply(&mut self, pos: usize, action: MachineState) -> (res: Result<(), MachineError>)
        requires
            !old(self)@.halted,
            old(self)@.cursor == Some(pos as nat),
            pos < TAPE_LEN,
            old(self)@.blocked(action@) is None ==> old(self)@.steps < usize::MAX,
        ensures
            final(self)@ == old(self)@.after(action@),
            reports(res, old(self)@.blocked(action@)),
    {
        self.body[pos] = action.write();
        match action.goto() {
            Move::Left => {
                if pos == 0 {
                    return Err(MachineError::of(Fault::LeftEdge));
                }
                self.pos = Some(pos - 1);
            },
            Move::Right => {
                if pos == TAPE_LEN - 1 {
                    return Err(MachineError::of(Fault::RightEdge));
                }
                self.pos = Some(pos + 1);
            },
            Move::Halt => {
                self.halted = true;
            },
        }
        self.len += 1;
        self.state_pos = action.next();
        Ok(())
    }

    /// Makes one transition: reads the symbol under the cursor, asks
    /// `state` what to do about it, writes, and then moves or halts.
    ///
    /// The write lands before the move is looked at, so a move that would
    /// leave the tape is reported with the write in place and with the
    /// cursor, the state and the count as they were. On a halted machine
    /// this does nothing and returns `Ok`.
    pub fn exec_state<F: Fn(char) -> MachineState>(&mut self, state: &Transition<F>) -> (res:
        Result<(), MachineError>)
        requires
            exists|rule: Rule| #[trigger]
                state.follows(rule) && (old(self)@.advances(rule) ==> old(self)@.steps
                    < usize::MAX),
        ensures
            forall|rule: Rule| #[trigger]
                state.follows(rule) ==> final(self)@ == old(self)@.step(rule) && reports(
                    res,
                    old(self)@.fault(rule),
                ),
            old(self)@.halted ==> final(self)@ == old(self)@ && res is Ok,
    {
        if self.halted {
            return Ok(());
        }
        let pos = match self.pos {
            Some(p) => p,
            None => {
                return Err(MachineError::of(Fault::NoCursor));
            },
        };
        if pos >= TAPE_LEN {
            return Err(MachineError::of(Fault::NoCursor));
        }
        let ghost rule = choose|rule: Rule| #[trigger]
            state.follows(rule) && (self@.advances(rule) ==> self@.steps < usize::MAX);
        let action = (state.0)(self.body[pos]);
        assert(action@ == rule(self@.scanned()));
        self.apply(pos, action)
    }

    /// Runs the machine: makes transitions, each by the function that
    /// `states` holds for the current state, until one halts the machine
    /// or meets a fault. A fault ends the run at once and is returned; the
    /// tape stays as the faulting transition left it. On a halted machine
    /// this does nothing and returns `Ok`.
    ///
    /// A caller owes that the run comes to an end, that it never enters a
    /// state for which the table has no function while the machine is
    /// running, and that the count of transitions stays within `usize`.
    pub fn start<F: Fn(char) -> MachineState>(&mut self, states: &[Transition<F>]) -> (res:
        Result<(), MachineError>)
        requires
            exists|rules: Seq<Rule>, n: nat|
                #![trigger table_follows(states@, rules), old(self)@.settles(rules, n)]
                table_follows(states@, rules) && old(self)@.settles(rules, n) && old(self)@.steps
                    + n <= usize::MAX,
        ensures
            forall|rules: Seq<Rule>, n: nat|
                #![trigger table_follows(states@, rules), old(self)@.settles(rules, n)]
                table_follows(states@, rules) && old(self)@.settles(rules, n) ==> final(self)@
                    == old(self)@.run(rules, n) && reports(res, old(self)@.run_fault(rules, n)),
            res is Ok <==> final(self)@.halted,
            old(self)@.halted ==> final(self)@ == old(self)@,
    {
        let ghost (rules0, n0): (Seq<Rule>, nat) = choose|rules: Seq<Rule>, n: nat|
            #![trigger table_follows(states@, rules), old(self)@.settles(rules, n)]
            table_follows(states@, rules) && old(self)@.settles(rules, n) && old(self)@.steps + n
                <= usize::MAX;
        let ghost done: nat = 0;
        while !self.halted
            invariant
                table_follows(states@, rules0),
                done <= n0,
                self@.settles(rules0, (n0 - done) as nat),
                self@.steps + (n0 - done) <= usize::MAX,
                old(self)@.halted ==> self@ == old(self)@,
                forall|rules: Seq<Rule>, n: nat|
                    #![trigger table_follows(states@, rules), old(self)@.settles(rules, n)]
                    table_follows(states@, rules) && old(self)@.settles(rules, n) ==> {
                        &&& done <= n
                        &&& self@.settles(rules, (n - done) as nat)
                        &&& self@.run(rules, (n - done) as nat) == old(self)@.run(rules, n)
                        &&& self@.run_fault(rules, (n - done) as nat) == old(self)@.run_fault(
                            rules,
                            n,
                        )
                    },
            decreases n0 - done,
        {
            let ghost before = self@;
            assert(before.state < rules0.len());
            let state = &states[self.state_pos];
            assert(state.follows(rules0[before.state as int]));
            let res = self.exec_state(state);
            match res {
                Err(e) => {
                    assert forall|rules: Seq<Rule>, n: nat|
                        #![trigger table_follows(states@, rules), old(self)@.settles(rules, n)]
                        table_follows(states@, rules) && old(self)@.settles(
                            rules,
                            n,
                        ) implies self@ == old(self)@.run(rules, n) && reports(
                        Err(e),
                        old(self)@.run_fault(rules, n),
                    ) by {
                        assert(state.follows(rules[before.state as int]));
                    }
                    return Err(e);
                },
                Ok(_) => {
                    assert forall|rules: Seq<Rule>, n: nat|
                        #![trigger table_follows(states@, rules), old(self)@.settles(rules, n)]
                        table_follows(states@, rules) && old(self)@.settles(rules, n) implies {
                        &&& done + 1 <= n
                        &&& self@.settles(rules, (n - (done + 1)) as nat)
                        &&& self@.run(rules, (n - (done + 1)) as nat) == old(self)@.run(rules, n)
                        &&& self@.run_fault(rules, (n - (done + 1)) as nat) == old(
                            self,
                        )@.run_fault(rules, n)
                    } by {
                        assert(state.follows(rules[before.state as int]));
                    }
                    proof {
                        done = done + 1;
                    }
                },
            }
        }
        Ok(())
    }
}

} // verus!

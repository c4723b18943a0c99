//! What a transition decides: the symbol to write, the move to make and the
//! state to enter.

use vstd::prelude::*;

verus! {

/// What the cursor does at the end of a transition.
#[derive(Clone, Copy, Debug, PartialEq, Eq, Structural)]
pub enum Move {
    /// One cell towards index 0.
    Left,
    /// One cell towards the last index.
    Right,
    /// Stay, and stop the machine.
    Halt,
}

/// The mathematical content of a [`MachineState`].
pub struct Action {
    /// The symbol written under the cursor before it moves.
    pub write: char,
    /// The move made after the write.
    pub goto: Move,
    /// The state entered once the move has been made.
    pub next: nat,
}

/// A state's behaviour on every symbol, as a mathematical function.
pub type Rule = spec_fn(char) -> Action;

/// The outcome of applying a transition function to one symbol.
#[derive(Clone, Copy, Debug)]
pub struct MachineState {
    write_sym: char,
    goto: Move,
    next: usize,
}

impl View for MachineState {
    type V = Action;

    closed spec fn view(&self) -> Action {
        Action { write: self.write_sym, goto: self.goto, next: self.next as nat }
    }
}

impl MachineState {
    /// Makes the descriptor that writes `sym`, moves as `goto` says and
    /// enters state `next`.
    pub fn new(sym: char, goto: Move, next: usize) -> (r: Self)
        ensures
            r@ == (Action { write: sym, goto: goto, next: next as nat }),
    {
        Self { write_sym: sym, goto, next }
    }

    /// The symbol to write.
    pub fn write(&self) -> (c: char)
        ensures
            c == self@.write,
    {
        self.write_sym
    }

    /// The move to make.
    pub fn goto(&self) -> (m: Move)
        ensures
            m == self@.goto,
    {
        self.goto
    }

    /// The state to enter.
    pub fn next(&self) -> (n: usize)
        ensures
            n == self@.next,
    {
        self.next
    }
}

/// One state of a machine: a function from the symbol under the cursor to
/// what the machine does about it.
///
/// A table is a slice of transitions of one type. States written as
/// different closures share the type `fn(char) -> MachineState`, to which
/// a closure that captures nothing coerces.
pub struct Transition<F>(pub F);

impl<F: Fn(char) -> MachineState> Transition<F> {
    /// The function accepts every symbol, and whatever it returns for a
    /// symbol is what `rule` prescribes for it. A function that follows a
    /// rule is total and pure.
    pub open spec fn follows(&self, rule: Rule) -> bool {
        &&& forall|c: char| call_requires(self.0, (c,))
        &&& forall|c: char, a: MachineState| call_ensures(self.0, (c,), a) ==> a@ == rule(c)
    }
}

/// State by state, the functions of `table` follow the rules of `rules`.
pub open spec fn table_follows<F: Fn(char) -> MachineState>(
    table: Seq<Transition<F>>,
    rules: Seq<Rule>,
) -> bool {
    &&& table.len() == rules.len()
    &&& forall|i: int| 0 <= i < table.len() ==> (#[trigger] table[i]).follows(rules[i])
}

} // verus!

//! What holds of every run of the machine.

use crate::action::{Move, Rule};
use crate::model::{Fault, TapeView};
use vstd::prelude::*;

verus! {

/// A halted machine is at rest: a further transition, and a further run of
/// any length, leave it exactly as it is and meet no fault.
pub proof fn lemma_halted_is_at_rest(t: TapeView, rule: Rule, rules: Seq<Rule>, fuel: nat)
    requires
        t.halted,
    ensures
        t.step(rule) == t,
        t.fault(rule) is None,
        t.settles(rules, fuel),
        t.run(rules, fuel) == t,
        t.run_fault(rules, fuel) is None,
{
}

/// A run that has come to an end does not depend on the fuel it was given:
/// more fuel changes neither where it ends nor the fault it ends with.
pub proof fn lemma_spare_fuel_is_unused(t: TapeView, rules: Seq<Rule>, n: nat, m: nat)
    requires
        t.settles(rules, n),
        n <= m,
    ensures
        t.settles(rules, m),
        t.run(rules, m) == t.run(rules, n),
        t.run_fault(rules, m) == t.run_fault(rules, n),
    decreases n,
{
    if !t.halted && t.fault(rules[t.state as int]) is None {
        lemma_spare_fuel_is_unused(
            t.step(rules[t.state as int]),
            rules,
            (n - 1) as nat,
            (m - 1) as nat,
        );
    }
}

/// Determinism: two machines that start with the same cells, cursor, state,
/// halted flag and count, run under the same rules until they come to an
/// end, finish with the same cells, cursor, state and count, and with the
/// same fault or none.
pub proof fn lemma_same_start_same_end(
    a: TapeView,
    b: TapeView,
    rules: Seq<Rule>,
    n: nat,
    m: nat,
)
    requires
        a.cells == b.cells,
        a.cursor == b.cursor,
        a.state == b.state,
        a.halted == b.halted,
        a.steps == b.steps,
        a.settles(rules, n),
        b.settles(rules, m),
    ensures
        a.run(rules, n).cells == b.run(rules, m).cells,
        a.run(rules, n).cursor == b.run(rules, m).cursor,
        a.run(rules, n).state == b.run(rules, m).state,
        a.run(rules, n).halted == b.run(rules, m).halted,
        a.run(rules, n).steps == b.run(rules, m).steps,
        a.run_fault(rules, n) == b.run_fault(rules, m),
{
    if n <= m {
        lemma_spare_fuel_is_unused(a, rules, n, m);
    } else {
        lemma_spare_fuel_is_unused(a, rules, m, n);
    }
}

/// A run that comes to an end ends in exactly one of two ways: halted and
/// without a fault, or at a fault and not halted.
pub proof fn lemma_end_is_halt_or_fault(t: TapeView, rules: Seq<Rule>, n: nat)
    requires
        t.settles(rules, n),
    ensures
        t.run(rules, n).halted <==> t.run_fault(rules, n) is None,
    decreases n,
{
    if !t.halted && t.fault(rules[t.state as int]) is None {
        lemma_end_is_halt_or_fault(t.step(rules[t.state as int]), rules, (n - 1) as nat);
    }
}

/// A run that reaches a halt has come to an end within its fuel, stayed
/// inside the table until then, and met no fault.
pub proof fn lemma_halting_run_settles(t: TapeView, rules: Seq<Rule>, n: nat)
    requires
        t.run(rules, n).halted,
    ensures
        t.settles(rules, n),
        t.run_fault(rules, n) is None,
    decreases n,
{
    if !t.halted && t.state < rules.len() && t.fault(rules[t.state as int]) is None && n > 0 {
        lemma_halting_run_settles(t.step(rules[t.state as int]), rules, (n - 1) as nat);
    }
}

/// With the cursor strictly between the first and the last cell, the next
/// transition meets no fault, whatever the rule.
pub proof fn lemma_inner_cursor_meets_no_fault(t: TapeView, rule: Rule)
    requires
        t.cursor matches Some(p) && 1 <= p && p + 2 <= t.cells.len(),
    ensures
        t.fault(rule) is None,
        !t.halted ==> t.advances(rule),
{
}

/// A running machine whose cursor is on the first cell and whose rule for
/// the symbol there moves left ends its run at once with the fault of the
/// left edge: the symbol of the rule is written, and cursor, state, count
/// and halted flag stay as they were.
pub proof fn lemma_left_at_first_cell(t: TapeView, rules: Seq<Rule>, n: nat)
    requires
        !t.halted,
        t.cursor == Some(0nat),
        t.cells.len() > 0,
        t.state < rules.len(),
        rules[t.state as int](t.cells[0]).goto == Move::Left,
    ensures
        t.settles(rules, n),
        t.run_fault(rules, n) == Some(Fault::LeftEdge),
        t.run(rules, n) == (TapeView {
            cells: t.cells.update(0, rules[t.state as int](t.cells[0]).write),
            ..t
        }),
{
}

/// A running machine whose cursor is on the last cell and whose rule for
/// the symbol there moves right ends its run at once with the fault of the
/// right edge: the symbol of the rule is written, and cursor, state, count
/// and halted flag stay as they were.
pub proof fn lemma_right_at_last_cell(t: TapeView, rules: Seq<Rule>, n: nat)
    requires
        !t.halted,
        t.on_tape(),
        t.head() == t.cells.len() - 1,
        t.state < rules.len(),
        rules[t.state as int](t.scanned()).goto == Move::Right,
    ensures
        t.settles(rules, n),
        t.run_fault(rules, n) == Some(Fault::RightEdge),
        t.run(rules, n) == (TapeView {
            cells: t.cells.update(t.head(), rules[t.state as int](t.scanned()).write),
            ..t
        }),
{
}

/// The cursor never leaves the tape and the tape never grows: a run that
/// starts with the cursor on a cell ends with it on a cell, and the number
/// of cells stays what it was.
pub proof fn lemma_cursor_stays_on_tape(t: TapeView, rules: Seq<Rule>, n: nat)
    ensures
        t.run(rules, n).cells.len() == t.cells.len(),
        t.on_tape() ==> t.run(rules, n).on_tape(),
    decreases n,
{
    if !t.halted && t.state < rules.len() && t.fault(rules[t.state as int]) is None && n > 0 {
        lemma_cursor_stays_on_tape(t.step(rules[t.state as int]), rules, (n - 1) as nat);
    }
}

/// A run completes no more transitions than its fuel, and counts each
/// completed transition once.
pub proof fn lemma_run_counts_within_fuel(t: TapeView, rules: Seq<Rule>, n: nat)
    ensures
        t.steps <= t.run(rules, n).steps <= t.steps + n,
    decreases n,
{
    if !t.halted && t.state < rules.len() && t.fault(rules[t.state as int]) is None && n > 0 {
        lemma_run_counts_within_fuel(t.step(rules[t.state as int]), rules, (n - 1) as nat);
    }
}

} // verus!

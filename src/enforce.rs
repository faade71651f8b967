//! The enforcement dispatcher: which action a matched rule calls for, and
//! the plan of actions for one snapshot of processes against one rule set.

use vstd::prelude::*;

use crate::matcher::process_matches;
use crate::records::{BlockRule, ProcessDescriptor};
use crate::text::same_text;

verus! {

/// What a matched rule asks for: ending the process ("hard" mode) or only
/// reporting that it runs ("soft" mode).
#[derive(Clone, Copy, Debug, PartialEq, Eq, Structural)]
pub enum EnforcementAction {
    Terminate,
    Warn,
}

/// What came of one enforcement attempt.
#[derive(Clone, Copy, Debug, PartialEq, Eq, Structural)]
pub enum EnforcementOutcome {
    Killed,
    Warned,
    NoOp,
}

/// One action to carry out: the process (by its place in the snapshot and by
/// its identifier), the rule (by its place in the rule set) and the action.
#[derive(Clone, Copy, Debug, PartialEq, Eq, Structural)]
pub struct Enforcement {
    pub process_index: usize,
    pub rule_index: usize,
    pub pid: u32,
    pub action: EnforcementAction,
}

/// The action a rule's mode calls for; other modes call for none.
pub open spec fn action_for_mode(mode: Seq<char>) -> Option<EnforcementAction> {
    if mode == "hard"@ {
        Some(EnforcementAction::Terminate)
    } else if mode == "soft"@ {
        Some(EnforcementAction::Warn)
    } else {
        None
    }
}

/// The outcome of an action, given whether a termination request succeeded.
pub open spec fn outcome_spec(action: EnforcementAction, terminated: bool) -> EnforcementOutcome {
    match action {
        EnforcementAction::Terminate => if terminated {
            EnforcementOutcome::Killed
        } else {
            EnforcementOutcome::NoOp
        },
        EnforcementAction::Warn => EnforcementOutcome::Warned,
    }
}

/// The entries that process `i` and rule `j` contribute: one when the rule
/// matches and its mode calls for an action, none otherwise.
pub open spec fn pair_entries(
    procs: Seq<ProcessDescriptor>,
    rules: Seq<BlockRule>,
    i: int,
    j: int,
) -> Seq<Enforcement> {
    if process_matches(procs[i], rules[j]) && action_for_mode(rules[j].mode@) is Some {
        seq![
            Enforcement {
                process_index: i as usize,
                rule_index: j as usize,
                pid: procs[i].pid,
                action: action_for_mode(rules[j].mode@)->Some_0,
            },
        ]
    } else {
        seq![]
    }
}

/// The entries for process `i` against the first `n` rules, in rule order.
pub open spec fn row_entries(
    procs: Seq<ProcessDescriptor>,
    rules: Seq<BlockRule>,
    i: int,
    n: int,
) -> Seq<Enforcement>
    decreases n,
{
    if n <= 0 {
        seq![]
    } else {
        row_entries(procs, rules, i, n - 1) + pair_entries(procs, rules, i, n - 1)
    }
}

/// The entries for the first `m` processes against every rule, process by process.
pub open spec fn plan_entries(
    procs: Seq<ProcessDescriptor>,
    rules: Seq<BlockRule>,
    m: int,
) -> Seq<Enforcement>
    decreases m,
{
    if m <= 0 {
        seq![]
    } else {
        plan_entries(procs, rules, m - 1) + row_entries(procs, rules, m - 1, rules.len() as int)
    }
}

/// The plan for one cycle: every (process, rule) pair, processes in snapshot
/// order and rules in rule-set order, contributes its entries.
pub open spec fn enforcement_plan(
    procs: Seq<ProcessDescriptor>,
    rules: Seq<BlockRule>,
) -> Seq<Enforcement> {
    plan_entries(procs, rules, procs.len() as int)
}

/// The action that a rule's mode calls for: `Terminate` for "hard", `Warn`
/// for "soft", none for anything else.
pub fn action_for(rule: &BlockRule) -> (r: Option<EnforcementAction>)
    ensures
        r == action_for_mode(rule.mode@),
{
    if same_text(rule.mode.as_str(), "hard") {
        Some(EnforcementAction::Terminate)
    } else if same_text(rule.mode.as_str(), "soft") {
        Some(EnforcementAction::Warn)
    } else {
        None
    }
}

/// The outcome of a carried-out action: a termination counts as `Killed`
/// only when the request succeeded, and as `NoOp` otherwise (the process may
/// have gone already); a warning is always `Warned`.
pub fn outcome_of(action: EnforcementAction, terminated: bool) -> (r: EnforcementOutcome)
    ensures
        r == outcome_spec(action, terminated),
{
    match action {
        EnforcementAction::Terminate => if terminated {
            EnforcementOutcome::Killed
        } else {
            EnforcementOutcome::NoOp
        },
        EnforcementAction::Warn => EnforcementOutcome::Warned,
    }
}

/// The enforcement plan for one snapshot: for every process and every rule
/// that matches it and whose mode calls for an action, one entry.
pub fn plan_enforcement(processes: &Vec<ProcessDescriptor>, rules: &Vec<BlockRule>) -> (r: Vec<
    Enforcement,
>)
    ensures
        r@ == enforcement_plan(processes@, rules@),
{
    let mut out: Vec<Enforcement> = Vec::new();
    let mut i: usize = 0;
    while i < processes.len()
        invariant
            i <= processes.len(),
            out@ == plan_entries(processes@, rules@, i as int),
        decreases processes.len() - i,
    {
        let mut j: usize = 0;
        while j < rules.len()
            invariant
                i < processes.len(),
                j <= rules.len(),
                out@ == plan_entries(processes@, rules@, i as int) + row_entries(
                    processes@,
                    rules@,
                    i as int,
                    j as int,
                ),
            decreases rules.len() - j,
        {
            let ghost before = out@;
            if crate::matcher::matches(&processes[i], &rules[j]) {
                match action_for(&rules[j]) {
                    Some(a) => {
                        out.push(
                            Enforcement {
                                process_index: i,
                                rule_index: j,
                                pid: processes[i].pid,
                                action: a,
                            },
                        );
                    },
                    None => {},
                }
            }
            proof {
                let p = plan_entries(processes@, rules@, i as int);
                let row = row_entries(processes@, rules@, i as int, j as int);
                let pair = pair_entries(processes@, rules@, i as int, j as int);
                assert(out@ =~= p + (row + pair));
            }
            j = j + 1;
        }
        i = i + 1;
    }
    out
}

/// An entry stands for a matching (process, rule) pair of the snapshot and
/// carries the action that the rule's mode calls for.
pub open spec fn entry_sound(
    procs: Seq<ProcessDescriptor>,
    rules: Seq<BlockRule>,
    e: Enforcement,
) -> bool {
    &&& (e.process_index as int) < procs.len()
    &&& (e.rule_index as int) < rules.len()
    &&& e.pid == procs[e.process_index as int].pid
    &&& process_matches(procs[e.process_index as int], rules[e.rule_index as int])
    &&& action_for_mode(rules[e.rule_index as int].mode@) == Some(e.action)
}

/// `a` comes before `b` in (process, rule) order.
pub open spec fn pair_before(a: Enforcement, b: Enforcement) -> bool {
    a.process_index < b.process_index || (a.process_index == b.process_index && a.rule_index
        < b.rule_index)
}

proof fn lemma_row_entries(procs: Seq<ProcessDescriptor>, rules: Seq<BlockRule>, i: int, n: int)
    requires
        0 <= i < procs.len() <= usize::MAX,
        0 <= n <= rules.len() <= usize::MAX,
    ensures
        forall|k: int|
            0 <= k < row_entries(procs, rules, i, n).len() ==> {
                let e = #[trigger] row_entries(procs, rules, i, n)[k];
                &&& entry_sound(procs, rules, e)
                &&& e.process_index as int == i
                &&& (e.rule_index as int) < n
            },
        forall|k1: int, k2: int|
            0 <= k1 < k2 < row_entries(procs, rules, i, n).len() ==> (#[trigger] row_entries(
                procs,
                rules,
                i,
                n,
            )[k1]).rule_index < (#[trigger] row_entries(procs, rules, i, n)[k2]).rule_index,
    decreases n,
{
    if n > 0 {
        lemma_row_entries(procs, rules, i, n - 1);
        let prev = row_entries(procs, rules, i, n - 1);
        let pair = pair_entries(procs, rules, i, n - 1);
        assert(row_entries(procs, rules, i, n) == prev + pair);
        assert forall|k: int| 0 <= k < (prev + pair).len() implies {
            let e = #[trigger] (prev + pair)[k];
            &&& entry_sound(procs, rules, e)
            &&& e.process_index as int == i
            &&& (e.rule_index as int) < n
        } by {
            if k >= prev.len() {
                assert((prev + pair)[k] == pair[k - prev.len()]);
            } else {
                assert((prev + pair)[k] == prev[k]);
            }
        }
        assert forall|k1: int, k2: int| 0 <= k1 < k2 < (prev + pair).len() implies (#[trigger] (
        prev + pair)[k1]).rule_index < (#[trigger] (prev + pair)[k2]).rule_index by {
            if k2 >= prev.len() {
                assert((prev + pair)[k2] == pair[k2 - prev.len()]);
                assert(k1 < prev.len());
                assert((prev + pair)[k1] == prev[k1]);
            } else {
                assert((prev + pair)[k1] == prev[k1]);
                assert((prev + pair)[k2] == prev[k2]);
            }
        }
    }
}

proof fn lemma_plan_entries(procs: Seq<ProcessDescriptor>, rules: Seq<BlockRule>, m: int)
    requires
        0 <= m <= procs.len() <= usize::MAX,
        rules.len() <= usize::MAX,
    ensures
        forall|k: int|
            0 <= k < plan_entries(procs, rules, m).len() ==> {
                let e = #[trigger] plan_entries(procs, rules, m)[k];
                &&& entry_sound(procs, rules, e)
                &&& (e.process_index as int) < m
            },
        forall|k1: int, k2: int|
            0 <= k1 < k2 < plan_entries(procs, rules, m).len() ==> pair_before(
                #[trigger] plan_entries(procs, rules, m)[k1],
                #[trigger] plan_entries(procs, rules, m)[k2],
            ),
    decreases m,
{
    if m > 0 {
        lemma_plan_entries(procs, rules, m - 1);
        lemma_row_entries(procs, rules, m - 1, rules.len() as int);
        let prev = plan_entries(procs, rules, m - 1);
        let row = row_entries(procs, rules, m - 1, rules.len() as int);
        assert(plan_entries(procs, rules, m) == prev + row);
        assert forall|k: int| 0 <= k < (prev + row).len() implies {
            let e = #[trigger] (prev + row)[k];
            &&& entry_sound(procs, rules, e)
            &&& (e.process_index as int) < m
        } by {
            if k >= prev.len() {
                assert((prev + row)[k] == row[k - prev.len()]);
            } else {
                assert((prev + row)[k] == prev[k]);
            }
        }
        assert forall|k1: int, k2: int| 0 <= k1 < k2 < (prev + row).len() implies pair_before(
            #[trigger] (prev + row)[k1],
            #[trigger] (prev + row)[k2],
        ) by {
            if k2 >= prev.len() {
                assert((prev + row)[k2] == row[k2 - prev.len()]);
                if k1 >= prev.len() {
                    assert((prev + row)[k1] == row[k1 - prev.len()]);
                } else {
                    assert((prev + row)[k1] == prev[k1]);
                }
            } else {
                assert((prev + row)[k1] == prev[k1]);
                assert((prev + row)[k2] == prev[k2]);
            }
        }
    }
}

/// Every entry of a cycle's plan stands for a (process, rule) pair in which
/// the rule matches the process, and carries the action of the rule's mode;
/// entries come in strict (process, rule) order, so no pair is acted on
/// twice within one cycle.
pub proof fn lemma_plan_is_sound_and_unique(procs: Seq<ProcessDescriptor>, rules: Seq<BlockRule>)
    requires
        procs.len() <= usize::MAX,
        rules.len() <= usize::MAX,
    ensures
        forall|k: int|
            0 <= k < enforcement_plan(procs, rules).len() ==> entry_sound(
                procs,
                rules,
                #[trigger] enforcement_plan(procs, rules)[k],
            ),
        forall|k1: int, k2: int|
            0 <= k1 < k2 < enforcement_plan(procs, rules).len() ==> pair_before(
                #[trigger] enforcement_plan(procs, rules)[k1],
                #[trigger] enforcement_plan(procs, rules)[k2],
            ),
{
    lemma_plan_entries(procs, rules, procs.len() as int);
}

/// A "soft" rule never leads to a termination: every entry that a soft rule
/// produces is a warning, and every termination comes from a "hard" rule.
pub proof fn lemma_soft_rules_never_terminate(
    procs: Seq<ProcessDescriptor>,
    rules: Seq<BlockRule>,
)
    requires
        procs.len() <= usize::MAX,
        rules.len() <= usize::MAX,
    ensures
        forall|k: int|
            0 <= k < enforcement_plan(procs, rules).len() && rules[(#[trigger] enforcement_plan(
                procs,
                rules,
            )[k]).rule_index as int].mode@ == "soft"@ ==> enforcement_plan(procs, rules)[k].action
                == EnforcementAction::Warn,
        forall|k: int|
            0 <= k < enforcement_plan(procs, rules).len() && (#[trigger] enforcement_plan(
                procs,
                rules,
            )[k]).action == EnforcementAction::Terminate ==> rules[enforcement_plan(
                procs,
                rules,
            )[k].rule_index as int].mode@ == "hard"@,
{
    lemma_plan_is_sound_and_unique(procs, rules);
    reveal_strlit("hard");
    reveal_strlit("soft");
    assert("hard"@ != "soft"@) by {
        assert("hard"@[0] != "soft"@[0]);
    }
}

} // verus!

use vstd::prelude::*;

use crate::control::{default_of, Control};
use crate::operations::{applied, reset_failures, reset_plan, writes_defaults};
use crate::source::WriteAttempt;

verus! {

/// No two controls of `controls` share an id.
pub open spec fn ids_unique(controls: Seq<Control>) -> bool {
    forall|i: int, j: int|
        0 <= i < j < controls.len() ==> (#[trigger] controls[i]).id != (#[trigger] controls[j]).id
}

/// The positions of the writes of `log` that the backend refused.
pub open spec fn refused_positions(log: Seq<WriteAttempt>) -> Set<int> {
    Set::new(|k: int| 0 <= k < log.len() && log[k].2 is Err)
}

/// Every write of `log` went through.
pub open spec fn all_accepted(log: Seq<WriteAttempt>) -> bool {
    forall|k: int| 0 <= k < log.len() ==> (#[trigger] log[k]).2 is Ok
}

/// The plan of a reset holds exactly the active controls, in order.
proof fn lemma_plan_is_active(controls: Seq<Control>)
    ensures
        forall|k: int| 0 <= k < reset_plan(controls).len() ==> !(#[trigger] reset_plan(controls)[k]).state.is_inactive,
        forall|i: int| 0 <= i < controls.len() && !(#[trigger] controls[i]).state.is_inactive
            ==> exists|k: int| 0 <= k < reset_plan(controls).len() && reset_plan(controls)[k] == controls[i],
    decreases controls.len(),
{
    if controls.len() > 0 {
        let cs = controls.drop_last();
        lemma_plan_is_active(cs);
        let p = reset_plan(cs);
        assert forall|i: int| 0 <= i < controls.len() && !(#[trigger] controls[i]).state.is_inactive
            implies exists|k: int| 0 <= k < reset_plan(controls).len() && reset_plan(controls)[k] == controls[i] by {
            if i < cs.len() {
                assert(cs[i] == controls[i]);
                let k = choose|k: int| 0 <= k < p.len() && p[k] == cs[i];
                assert(reset_plan(controls)[k] == controls[i]);
            } else {
                assert(reset_plan(controls)[p.len() as int] == controls[i]);
            }
        }
    }
}

/// A write that went through keeps its control at the value written, to
/// the end of the log, when the log writes distinct ids.
proof fn lemma_applied_keeps(before: Map<u64, i64>, log: Seq<WriteAttempt>)
    requires
        forall|i: int, j: int| 0 <= i < j < log.len() ==> (#[trigger] log[i]).0 != (#[trigger] log[j]).0,
    ensures
        forall|k: int| 0 <= k < log.len() && (#[trigger] log[k]).2 is Ok
            ==> applied(before, log).contains_key(log[k].0) && applied(before, log)[log[k].0] == log[k].1,
    decreases log.len(),
{
    if log.len() > 0 {
        let l = log.drop_last();
        assert forall|i: int, j: int| 0 <= i < j < l.len() implies (#[trigger] l[i]).0 != (#[trigger] l[j]).0 by {
            assert(l[i] == log[i] && l[j] == log[j]);
        }
        lemma_applied_keeps(before, l);
        assert forall|k: int| 0 <= k < log.len() && (#[trigger] log[k]).2 is Ok
            implies applied(before, log).contains_key(log[k].0) && applied(before, log)[log[k].0] == log[k].1 by {
            if k < l.len() {
                assert(l[k] == log[k]);
                assert(log[k].0 != log[log.len() - 1].0);
            }
        }
    }
}

/// The refused writes of `log`, counted.
proof fn lemma_failure_count(plan: Seq<Control>, log: Seq<WriteAttempt>)
    requires
        plan.len() == log.len(),
    ensures
        refused_positions(log).finite(),
        reset_failures(plan, log).len() == refused_positions(log).len(),
    decreases log.len(),
{
    let s = refused_positions(log);
    if log.len() == 0 {
        assert(s =~= Set::<int>::empty());
    } else {
        let l = log.drop_last();
        let n = log.len() - 1;
        lemma_failure_count(plan.drop_last(), l);
        let t = refused_positions(l);
        assert forall|i: int| 0 <= i < n implies (#[trigger] t.contains(i)) == s.contains(i) by {
            assert(l[i] == log[i]);
        }
        if log[n].2 is Err {
            assert(s =~= t.insert(n));
        } else {
            assert(s =~= t);
        }
    }
}

/// A reset whose writes all went through reports no failure.
proof fn lemma_accepted_no_failures(plan: Seq<Control>, log: Seq<WriteAttempt>)
    requires
        plan.len() == log.len(),
        all_accepted(log),
    ensures
        reset_failures(plan, log).len() == 0,
{
    lemma_failure_count(plan, log);
    assert(refused_positions(log) =~= Set::<int>::empty());
}

/// When some writes of a reset are refused, the reset has still written
/// the default of every active control, reports one error for each refused
/// write, and every control whose write went through ends at its default
/// (ids being unique among the active controls).
pub proof fn lemma_reset_partial_failure(before: Map<u64, i64>, controls: Seq<Control>, log: Seq<WriteAttempt>)
    requires
        writes_defaults(log, reset_plan(controls)),
        ids_unique(reset_plan(controls)),
    ensures
        forall|i: int| 0 <= i < controls.len() && !(#[trigger] controls[i]).state.is_inactive
            ==> exists|k: int| 0 <= k < log.len() && log[k].0 == controls[i].id && log[k].1 == default_of(
                controls[i].configuration,
            ),
        reset_failures(reset_plan(controls), log).len() == refused_positions(log).len(),
        forall|k: int| 0 <= k < log.len() && (#[trigger] log[k]).2 is Ok
            ==> applied(before, log).contains_key(reset_plan(controls)[k].id)
            && applied(before, log)[reset_plan(controls)[k].id] == default_of(
                reset_plan(controls)[k].configuration,
            ),
{
    let plan = reset_plan(controls);
    lemma_plan_is_active(controls);
    assert forall|i: int| 0 <= i < controls.len() && !(#[trigger] controls[i]).state.is_inactive
        implies exists|k: int| 0 <= k < log.len() && log[k].0 == controls[i].id && log[k].1 == default_of(
            controls[i].configuration,
        ) by {
        let k = choose|k: int| 0 <= k < plan.len() && plan[k] == controls[i];
        assert(log[k].0 == plan[k].id);
    }
    lemma_failure_count(plan, log);
    assert forall|i: int, j: int| 0 <= i < j < log.len() implies (#[trigger] log[i]).0 != (#[trigger] log[j]).0 by {
        assert(plan[i].id != plan[j].id);
    }
    lemma_applied_keeps(before, log);
}

/// A reset over controls that are all inactive, or over no control at all,
/// makes no write, leaves the values as they were and reports no failure.
pub proof fn lemma_reset_no_active(before: Map<u64, i64>, controls: Seq<Control>, log: Seq<WriteAttempt>)
    requires
        forall|i: int| 0 <= i < controls.len() ==> (#[trigger] controls[i]).state.is_inactive,
        writes_defaults(log, reset_plan(controls)),
    ensures
        log.len() == 0,
        applied(before, log) == before,
        reset_failures(reset_plan(controls), log).len() == 0,
{
    lemma_plan_is_active(controls);
    if reset_plan(controls).len() > 0 {
        let k = 0int;
        assert(!reset_plan(controls)[k].state.is_inactive);
        assert(false) by {
            lemma_plan_members(controls, k);
        }
    }
}

/// Each control of a reset's plan is a control of the snapshot.
proof fn lemma_plan_members(controls: Seq<Control>, k: int)
    requires
        0 <= k < reset_plan(controls).len(),
    ensures
        exists|i: int| 0 <= i < controls.len() && controls[i] == reset_plan(controls)[k],
    decreases controls.len(),
{
    let cs = controls.drop_last();
    if k < reset_plan(cs).len() {
        lemma_plan_members(cs, k);
        let i = choose|i: int| 0 <= i < cs.len() && cs[i] == reset_plan(cs)[k];
        assert(controls[i] == cs[i]);
    } else {
        assert(controls[controls.len() - 1] == reset_plan(controls)[k]);
    }
}

/// With every write accepted, the values after a log are those before,
/// overridden by the writes of the log.
proof fn lemma_accepted_overrides(before: Map<u64, i64>, log: Seq<WriteAttempt>)
    requires
        all_accepted(log),
    ensures
        applied(before, log) == before.union_prefer_right(applied(Map::empty(), log)),
    decreases log.len(),
{
    if log.len() > 0 {
        let l = log.drop_last();
        assert(all_accepted(l)) by {
            assert forall|k: int| 0 <= k < l.len() implies (#[trigger] l[k]).2 is Ok by {
                assert(l[k] == log[k]);
            }
        }
        lemma_accepted_overrides(before, l);
        assert(log[log.len() - 1].2 is Ok);
        assert(applied(before, log) =~= before.union_prefer_right(applied(Map::empty(), log)));
    }
}

/// Two accepted logs that write the same ids and values in order give the
/// same values.
proof fn lemma_same_writes(first: Seq<WriteAttempt>, second: Seq<WriteAttempt>)
    requires
        first.len() == second.len(),
        all_accepted(first),
        all_accepted(second),
        forall|k: int| 0 <= k < first.len() ==> (#[trigger] first[k]).0 == second[k].0 && first[k].1 == second[k].1,
    ensures
        applied(Map::empty(), first) == applied(Map::empty(), second),
    decreases first.len(),
{
    if first.len() > 0 {
        let f = first.drop_last();
        let s = second.drop_last();
        assert forall|k: int| 0 <= k < f.len() implies (#[trigger] f[k]).2 is Ok && s[k].2 is Ok && f[k].0 == s[k].0 && f[k].1 == s[k].1 by {
            assert(f[k] == first[k] && s[k] == second[k]);
        }
        lemma_same_writes(f, s);
        assert(first[first.len() - 1].2 is Ok && second[second.len() - 1].2 is Ok);
    }
}

/// Resetting twice with every write accepted: both resets make the same
/// writes, both report success, the second leaves the values as the first
/// left them, and every active control is at its default after either
/// (ids being unique among the active controls).
pub proof fn lemma_reset_idempotent(
    before: Map<u64, i64>,
    controls: Seq<Control>,
    first: Seq<WriteAttempt>,
    second: Seq<WriteAttempt>,
)
    requires
        writes_defaults(first, reset_plan(controls)),
        writes_defaults(second, reset_plan(controls)),
        all_accepted(first),
        all_accepted(second),
    ensures
        forall|k: int| 0 <= k < first.len() ==> (#[trigger] first[k]).0 == second[k].0 && first[k].1 == second[k].1,
        first.len() == second.len(),
        reset_failures(reset_plan(controls), first).len() == 0,
        reset_failures(reset_plan(controls), second).len() == 0,
        applied(applied(before, first), second) == applied(before, first),
        ids_unique(reset_plan(controls)) ==> forall|k: int| 0 <= k < first.len()
            ==> applied(before, first).contains_key(#[trigger] reset_plan(controls)[k].id)
            && applied(before, first)[reset_plan(controls)[k].id] == default_of(
                reset_plan(controls)[k].configuration,
            ),
{
    let plan = reset_plan(controls);
    lemma_accepted_no_failures(plan, first);
    lemma_accepted_no_failures(plan, second);
    lemma_same_writes(first, second);
    let once = applied(before, first);
    lemma_accepted_overrides(before, first);
    lemma_accepted_overrides(once, second);
    assert(once.union_prefer_right(applied(Map::empty(), first)) =~= once);
    if ids_unique(plan) {
        lemma_reset_partial_failure(before, controls, first);
        assert forall|k: int| 0 <= k < first.len() implies applied(before, first).contains_key(
            #[trigger] plan[k].id,
        ) && applied(before, first)[plan[k].id] == default_of(plan[k].configuration) by {
            assert(first[k].2 is Ok);
        }
    }
}

} // verus!

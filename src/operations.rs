use vstd::prelude::*;

use crate::control::{agrees, default_of, same_controls, Control};
use crate::discovery::{
    aggregated, get_video_source, identities, is_first_match, lookup_outcome, string_views,
};
use crate::error::{IoError, VideoSourceError};
use crate::source::{has_control_id, VideoSource, VideoSourceAvailable, VideoSourceType, WriteAttempt};

verus! {

/// The active controls of `controls`, in order: those a reset writes.
pub open spec fn reset_plan(controls: Seq<Control>) -> Seq<Control>
    decreases controls.len(),
{
    if controls.len() == 0 {
        Seq::empty()
    } else {
        let prev = reset_plan(controls.drop_last());
        if controls.last().state.is_inactive {
            prev
        } else {
            prev.push(controls.last())
        }
    }
}

/// `log` holds one write per control of `plan`, in its order, each of the
/// control's default value.
pub open spec fn writes_defaults(log: Seq<WriteAttempt>, plan: Seq<Control>) -> bool {
    &&& log.len() == plan.len()
    &&& forall|k: int|
        0 <= k < log.len() ==> (#[trigger] log[k]).0 == plan[k].id && log[k].1 == default_of(
            plan[k].configuration,
        )
}

/// The control values after the writes of `log` that went through.
pub open spec fn applied(before: Map<u64, i64>, log: Seq<WriteAttempt>) -> Map<u64, i64>
    decreases log.len(),
{
    if log.len() == 0 {
        before
    } else {
        let prev = applied(before, log.drop_last());
        if log.last().2 is Ok {
            prev.insert(log.last().0, log.last().1)
        } else {
            prev
        }
    }
}

/// For each write of `log` that failed: the name and id of the control of
/// `plan` it was for, and the error the backend gave.
pub open spec fn reset_failures(plan: Seq<Control>, log: Seq<WriteAttempt>) -> Seq<
    (Seq<char>, u64, IoError),
>
    decreases log.len(),
{
    if log.len() == 0 || plan.len() == 0 {
        Seq::empty()
    } else {
        let prev = reset_failures(plan.drop_last(), log.drop_last());
        match log.last().2 {
            Err(e) => prev.push((plan.last().name@, plan.last().id, e)),
            Ok(_) => prev,
        }
    }
}

/// The control that a reset error names, with the backend's error.
pub open spec fn failure_target(e: VideoSourceError) -> Option<(Seq<char>, u64, IoError)> {
    match e {
        VideoSourceError::Control { name, id, cause } => Some((name@, id, cause)),
        _ => None,
    }
}

/// `errors` reports exactly the failures `failures`, one error per control,
/// in the same order.
pub open spec fn reports(errors: Seq<VideoSourceError>, failures: Seq<(Seq<char>, u64, IoError)>) -> bool {
    &&& errors.len() == failures.len()
    &&& forall|k: int|
        0 <= k < errors.len() ==> failure_target(#[trigger] errors[k]) == Some(failures[k])
}

/// The outcome of a reset: success when no write was refused, else the
/// list of errors that reports each refused write.
pub open spec fn reset_outcome(r: Result<(), Vec<VideoSourceError>>, failures: Seq<(Seq<char>, u64, IoError)>) -> bool {
    if failures.len() == 0 {
        r is Ok
    } else {
        r is Err && reports(r->Err_0@, failures)
    }
}

/// The writes that a reset turning `before` into `after` added to the log.
pub open spec fn reset_log<S: VideoSource>(before: S, after: S) -> Seq<WriteAttempt> {
    after.attempts().skip(before.attempts().len() as int)
}

/// A reset turned the source `before` into `after` and returned `r`: it
/// wrote, in order, the default of each active control and nothing else,
/// and reported each refused write with the control's name, id and the
/// backend's error.
pub open spec fn reset_effect<S: VideoSource>(before: S, after: S, r: Result<(), Vec<VideoSourceError>>) -> bool {
    let plan = reset_plan(before.control_list());
    let log = reset_log(before, after);
    &&& after.identity() == before.identity()
    &&& after.attempts() == before.attempts() + log
    &&& writes_defaults(log, plan)
    &&& after.values() == applied(before.values(), log)
    &&& reset_outcome(r, reset_failures(plan, log))
}

/// What a write of the backend gives at this layer.
pub open spec fn as_source_result(b: Result<(), IoError>) -> Result<(), VideoSourceError> {
    match b {
        Ok(()) => Ok(()),
        Err(e) => Err(VideoSourceError::Io(e)),
    }
}

/// Snapshots that agree give plans that agree.
proof fn lemma_plan_same_controls(a: Seq<Control>, b: Seq<Control>)
    requires
        same_controls(a, b),
    ensures
        same_controls(reset_plan(a), reset_plan(b)),
    decreases a.len(),
{
    if a.len() > 0 {
        let n = a.len() - 1;
        assert(agrees(a[n], b[n]));
        assert(same_controls(a.drop_last(), b.drop_last())) by {
            assert forall|i: int| 0 <= i < a.drop_last().len() implies agrees(
                #[trigger] a.drop_last()[i],
                b.drop_last()[i],
            ) by {
                assert(agrees(a[i], b[i]));
            }
        }
        lemma_plan_same_controls(a.drop_last(), b.drop_last());
        let pa = reset_plan(a.drop_last());
        let pb = reset_plan(b.drop_last());
        if !a.last().state.is_inactive {
            assert forall|i: int| 0 <= i < pa.push(a.last()).len() implies agrees(
                #[trigger] pa.push(a.last())[i],
                pb.push(b.last())[i],
            ) by {
                if i < pa.len() {
                    assert(agrees(pa[i], pb[i]));
                }
            }
        }
    }
}

/// A reset's failures read the same over plans that agree.
proof fn lemma_failures_same_controls(a: Seq<Control>, b: Seq<Control>, log: Seq<WriteAttempt>)
    requires
        same_controls(a, b),
    ensures
        reset_failures(a, log) == reset_failures(b, log),
        writes_defaults(log, a) == writes_defaults(log, b),
    decreases log.len(),
{
    if a.len() > 0 {
        assert(agrees(a[a.len() - 1], b[b.len() - 1]));
        assert(same_controls(a.drop_last(), b.drop_last())) by {
            assert forall|i: int| 0 <= i < a.drop_last().len() implies agrees(
                #[trigger] a.drop_last()[i],
                b.drop_last()[i],
            ) by {
                assert(agrees(a[i], b[i]));
            }
        }
        if log.len() > 0 {
            lemma_failures_same_controls(a.drop_last(), b.drop_last(), log.drop_last());
        }
    }
    if writes_defaults(log, a) {
        assert forall|k: int| 0 <= k < log.len() implies (#[trigger] log[k]).0 == b[k].id && log[k].1
            == default_of(b[k].configuration) by {
            assert(agrees(a[k], b[k]));
        }
    }
    if writes_defaults(log, b) {
        assert forall|k: int| 0 <= k < log.len() implies (#[trigger] log[k]).0 == a[k].id && log[k].1
            == default_of(a[k].configuration) by {
            assert(agrees(a[k], b[k]));
        }
    }
}

/// Writes `value` to the control `control_id` of `source`: one write,
/// passed on unchanged, whose answer is returned as it came.
pub fn set_source_control<S: VideoSource>(source: &mut S, control_id: u64, value: i64) -> (r: Result<
    (),
    VideoSourceError,
>)
    ensures
        final(source).identity() == old(source).identity(),
        final(source).attempts() == old(source).attempts().push(
            (control_id, value, final(source).attempts().last().2),
        ),
        r == as_source_result(final(source).attempts().last().2),
        r is Ok ==> final(source).values() == old(source).values().insert(control_id, value)
            && has_control_id(old(source).control_list(), control_id),
        r is Err ==> final(source).values() == old(source).values(),
{
    match source.set_control_by_id(control_id, value) {
        Ok(()) => Ok(()),
        Err(e) => Err(VideoSourceError::Io(e)),
    }
}

/// Writes its default to every active control of `source`, in order, going
/// on past refused writes, and reports every refused write with the
/// control's name and id and the backend's error. Inactive controls are not
/// written.
pub fn reset_source_controls<S: VideoSource>(source: &mut S) -> (r: Result<(), Vec<VideoSourceError>>)
    ensures
        reset_effect(*old(source), *final(source), r),
{
    let controls = source.controls();
    let ghost cs = controls@;
    let ghost v0 = source.values();
    let ghost a0 = source.attempts();
    let ghost mut log: Seq<WriteAttempt> = Seq::empty();
    let mut errors: Vec<VideoSourceError> = Vec::new();
    let n = controls.len();
    let mut i: usize = 0;
    assert(a0 + log =~= a0);
    while i < n
        invariant
            n == cs.len(),
            controls@ == cs,
            i <= n,
            source.identity() == old(source).identity(),
            same_controls(cs, old(source).control_list()),
            v0 == old(source).values(),
            a0 == old(source).attempts(),
            source.attempts() == a0 + log,
            writes_defaults(log, reset_plan(cs.take(i as int))),
            source.values() == applied(v0, log),
            reports(errors@, reset_failures(reset_plan(cs.take(i as int)), log)),
        decreases n - i,
    {
        let control = &controls[i];
        let ghost plan = reset_plan(cs.take(i as int));
        let ghost prev_log = log;
        let ghost prev_errors = errors@;
        proof {
            assert(cs.take(i + 1).drop_last() =~= cs.take(i as int));
            assert(cs.take(i + 1).last() == cs[i as int]);
        }
        if !control.state.is_inactive {
            let default_value = control.configuration.default_value();
            let outcome = source.set_control_by_id(control.id, default_value);
            proof {
                log = prev_log.push((control.id, default_value, outcome));
                assert(log.drop_last() =~= prev_log);
                assert(plan.push(cs[i as int]).drop_last() =~= plan);
                assert(source.attempts() =~= a0 + log);
            }
            match outcome {
                Ok(()) => {},
                Err(error) => {
                    errors.push(
                        VideoSourceError::Control {
                            name: control.name.clone(),
                            id: control.id,
                            cause: error,
                        },
                    );
                    proof {
                        assert(errors@.drop_last() =~= prev_errors);
                    }
                },
            }
        }
        i = i + 1;
    }
    proof {
        assert(cs.take(n as int) =~= cs);
        lemma_plan_same_controls(cs, old(source).control_list());
        lemma_failures_same_controls(reset_plan(cs), reset_plan(old(source).control_list()), log);
        assert(source.attempts().skip(a0.len() as int) =~= log);
    }
    if errors.len() == 0 {
        Ok(())
    } else {
        Err(errors)
    }
}

/// `e` is the lookup failure for `source_string` among `cameras`.
pub open spec fn is_not_found_in<S: VideoSource>(
    e: VideoSourceError,
    cameras: Seq<S>,
    source_string: Seq<char>,
) -> bool {
    match e {
        VideoSourceError::NotFound { attempted, available } => attempted@ == source_string
            && string_views(available@) == identities(cameras),
        _ => false,
    }
}

/// `r` is what looking up `source_string` in `cameras` and resetting the
/// source found gives: the lookup failure as the one error of the list when
/// no source has that identity string, else the effect of a reset on the
/// first such source.
pub open spec fn reset_by_identity_outcome<S: VideoSource>(
    cameras: Seq<S>,
    source_string: Seq<char>,
    r: Result<(), Vec<VideoSourceError>>,
) -> bool {
    if identities(cameras).contains(source_string) {
        exists|i: int, after: S|
            is_first_match(cameras, source_string, i) && #[trigger] reset_effect(cameras[i], after, r)
    } else {
        r is Err && r->Err_0@.len() == 1 && is_not_found_in(r->Err_0@[0], cameras, source_string)
    }
}

/// A single write turned `before` into `after` and gave `r`: one write of
/// `value` to `control_id`, whose answer is returned as it came.
pub open spec fn set_effect<S: VideoSource>(
    before: S,
    after: S,
    control_id: u64,
    value: i64,
    r: Result<(), VideoSourceError>,
) -> bool {
    &&& after.attempts() == before.attempts().push((control_id, value, after.attempts().last().2))
    &&& r == as_source_result(after.attempts().last().2)
}

/// `r` is what looking up `source_string` in `cameras` and writing a control
/// of the source found gives: the lookup failure when no source has that
/// identity string, else the answer to one write made on the first such
/// source.
pub open spec fn set_by_identity_outcome<S: VideoSource>(
    cameras: Seq<S>,
    source_string: Seq<char>,
    control_id: u64,
    value: i64,
    r: Result<(), VideoSourceError>,
) -> bool {
    if identities(cameras).contains(source_string) {
        exists|i: int, after: S|
            is_first_match(cameras, source_string, i) && #[trigger] set_effect(
                cameras[i],
                after,
                control_id,
                value,
                r,
            )
    } else {
        r is Err && is_not_found_in(r->Err_0, cameras, source_string)
    }
}

/// Looks up the source `source_string` and writes `value` to its control
/// `control_id`; a failed lookup or a refused write is returned as it came.
pub fn set_control<L, G, R>(source_string: &str, control_id: u64, value: i64) -> (r: Result<
    (),
    VideoSourceError,
>)
    where
        L: VideoSource + VideoSourceAvailable,
        G: VideoSource + VideoSourceAvailable,
        R: VideoSource + VideoSourceAvailable,
    ensures
        exists|local: Seq<L>, gst: Seq<G>, redirect: Seq<R>|
            set_by_identity_outcome(
                #[trigger] aggregated(local, gst, redirect),
                source_string@,
                control_id,
                value,
                r,
            ),
{
    let found = get_video_source::<L, G, R>(source_string);
    let ghost (local, gst, redirect) = choose|local: Seq<L>, gst: Seq<G>, redirect: Seq<R>|
        lookup_outcome(aggregated(local, gst, redirect), source_string@, found);
    let ghost cameras = aggregated(local, gst, redirect);
    let mut camera = match found {
        Ok(camera) => camera,
        Err(error) => return Err(error),
    };
    let ghost i = choose|i: int| is_first_match(cameras, source_string@, i) && camera == cameras[i];
    let r = set_source_control(&mut camera, control_id, value);
    assert(set_effect(cameras[i], camera, control_id, value, r));
    r
}

/// Looks up the source `source_string` and resets all its active controls
/// to their defaults. A failed lookup is the one error of the list;
/// otherwise the outcome is that of `reset_source_controls` on the source
/// found.
pub fn reset_controls<L, G, R>(source_string: &str) -> (r: Result<(), Vec<VideoSourceError>>)
    where
        L: VideoSource + VideoSourceAvailable,
        G: VideoSource + VideoSourceAvailable,
        R: VideoSource + VideoSourceAvailable,
    ensures
        exists|local: Seq<L>, gst: Seq<G>, redirect: Seq<R>|
            reset_by_identity_outcome(#[trigger] aggregated(local, gst, redirect), source_string@, r),
{
    let found = get_video_source::<L, G, R>(source_string);
    let ghost (local, gst, redirect) = choose|local: Seq<L>, gst: Seq<G>, redirect: Seq<R>|
        lookup_outcome(aggregated(local, gst, redirect), source_string@, found);
    let ghost cameras = aggregated(local, gst, redirect);
    let mut camera = match found {
        Ok(camera) => camera,
        Err(error) => {
            let errors = vec![error];
            assert(errors@.len() == 1 && errors@[0] == error);
            return Err(errors);
        },
    };
    let ghost i = choose|i: int| is_first_match(cameras, source_string@, i) && camera == cameras[i];
    let r = reset_source_controls(&mut camera);
    assert(reset_effect(cameras[i], camera, r));
    r
}

} // verus!

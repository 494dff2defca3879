use vstd::prelude::*;

use crate::control::{same_controls, Control, Format};
use crate::error::IoError;

verus! {

/// Some control of `controls` has the id `id`.
pub open spec fn has_control_id(controls: Seq<Control>, id: u64) -> bool {
    exists|i: int| 0 <= i < controls.len() && (#[trigger] controls[i]).id == id
}

/// Some control of `controls` is called `name`, and `after` is `before`
/// with that control set to `value`.
pub open spec fn written_by_name(
    controls: Seq<Control>,
    name: Seq<char>,
    value: i64,
    before: Map<u64, i64>,
    after: Map<u64, i64>,
) -> bool {
    exists|i: int|
        0 <= i < controls.len() && (#[trigger] controls[i]).name@ == name && after == before.insert(
            controls[i].id,
            value,
        )
}

/// Some control of `controls` is called `name` and holds `value` in `values`.
pub open spec fn read_by_name(
    controls: Seq<Control>,
    name: Seq<char>,
    values: Map<u64, i64>,
    value: i64,
) -> bool {
    exists|i: int|
        0 <= i < controls.len() && (#[trigger] controls[i]).name@ == name && values.contains_key(
            controls[i].id,
        ) && values[controls[i].id] == value
}

/// One write made to a source: the control's id, the value, and what the
/// backend answered.
pub type WriteAttempt = (u64, i64, Result<(), IoError>);

/// The capability interface that every backend implements.
///
/// A backend is modelled by its identity string, the controls it
/// currently reports, the values its controls currently hold, and the log
/// of every write made to it.
pub trait VideoSource: Sized {
    spec fn identity(&self) -> Seq<char>;

    spec fn attempts(&self) -> Seq<WriteAttempt>;

    spec fn control_list(&self) -> Seq<Control>;

    spec fn values(&self) -> Map<u64, i64>;

    fn name(&self) -> String;

    fn source_string(&self) -> (r: String)
        ensures
            r@ == self.identity(),
    ;

    fn formats(&self) -> Vec<Format>;

    /// Writes `value` to the control called `control_name`; a failed write
    /// changes nothing but the log.
    fn set_control_by_name(&mut self, control_name: &str, value: i64) -> (r: Result<(), IoError>)
        ensures
            final(self).identity() == old(self).identity(),
            final(self).attempts() == old(self).attempts().push(
                (final(self).attempts().last().0, value, r),
            ),
            r is Err ==> final(self).values() == old(self).values(),
            r is Ok ==> written_by_name(
                old(self).control_list(),
                control_name@,
                value,
                old(self).values(),
                final(self).values(),
            ),
    ;

    /// Writes `value` to the control with id `control_id`, and logs the
    /// write; a failed write changes nothing but the log.
    fn set_control_by_id(&mut self, control_id: u64, value: i64) -> (r: Result<(), IoError>)
        ensures
            final(self).identity() == old(self).identity(),
            final(self).attempts() == old(self).attempts().push((control_id, value, r)),
            r is Err ==> final(self).values() == old(self).values(),
            r is Ok ==> final(self).values() == old(self).values().insert(control_id, value),
            r is Ok ==> has_control_id(old(self).control_list(), control_id),
    ;

    fn control_value_by_name(&self, control_name: &str) -> (r: Result<i64, IoError>)
        ensures
            r is Ok ==> read_by_name(self.control_list(), control_name@, self.values(), r->Ok_0),
    ;

    fn control_value_by_id(&self, control_id: u64) -> (r: Result<i64, IoError>)
        ensures
            r is Ok ==> self.values().contains_key(control_id) && r->Ok_0 == self.values()[control_id],
    ;

    /// A fresh snapshot of every control, inactive ones included.
    fn controls(&self) -> (r: Vec<Control>)
        ensures
            same_controls(r@, self.control_list()),
    ;

    fn is_valid(&self) -> bool;

    fn is_shareable(&self) -> bool;
}

/// Static discovery of the sources of one backend kind.
pub trait VideoSourceAvailable: Sized {
    fn cameras_available() -> Vec<Self>;
}

/// A source of one of the three backend kinds.
#[derive(Clone, Debug)]
pub enum VideoSourceType<L, G, R> {
    Local(L),
    Gst(G),
    Redirect(R),
}

impl<L: VideoSource, G: VideoSource, R: VideoSource> VideoSource for VideoSourceType<L, G, R> {
    open spec fn identity(&self) -> Seq<char> {
        match self {
            VideoSourceType::Local(s) => s.identity(),
            VideoSourceType::Gst(s) => s.identity(),
            VideoSourceType::Redirect(s) => s.identity(),
        }
    }

    open spec fn attempts(&self) -> Seq<WriteAttempt> {
        match self {
            VideoSourceType::Local(s) => s.attempts(),
            VideoSourceType::Gst(s) => s.attempts(),
            VideoSourceType::Redirect(s) => s.attempts(),
        }
    }

    open spec fn control_list(&self) -> Seq<Control> {
        match self {
            VideoSourceType::Local(s) => s.control_list(),
            VideoSourceType::Gst(s) => s.control_list(),
            VideoSourceType::Redirect(s) => s.control_list(),
        }
    }

    open spec fn values(&self) -> Map<u64, i64> {
        match self {
            VideoSourceType::Local(s) => s.values(),
            VideoSourceType::Gst(s) => s.values(),
            VideoSourceType::Redirect(s) => s.values(),
        }
    }

    fn name(&self) -> String {
        match self {
            VideoSourceType::Local(s) => s.name(),
            VideoSourceType::Gst(s) => s.name(),
            VideoSourceType::Redirect(s) => s.name(),
        }
    }

    fn source_string(&self) -> (r: String) {
        match self {
            VideoSourceType::Local(s) => s.source_string(),
            VideoSourceType::Gst(s) => s.source_string(),
            VideoSourceType::Redirect(s) => s.source_string(),
        }
    }

    fn formats(&self) -> Vec<Format> {
        match self {
            VideoSourceType::Local(s) => s.formats(),
            VideoSourceType::Gst(s) => s.formats(),
            VideoSourceType::Redirect(s) => s.formats(),
        }
    }

    fn set_control_by_name(&mut self, control_name: &str, value: i64) -> (r: Result<(), IoError>) {
        match self {
            VideoSourceType::Local(s) => s.set_control_by_name(control_name, value),
            VideoSourceType::Gst(s) => s.set_control_by_name(control_name, value),
            VideoSourceType::Redirect(s) => s.set_control_by_name(control_name, value),
        }
    }

    fn set_control_by_id(&mut self, control_id: u64, value: i64) -> (r: Result<(), IoError>) {
        match self {
            VideoSourceType::Local(s) => s.set_control_by_id(control_id, value),
            VideoSourceType::Gst(s) => s.set_control_by_id(control_id, value),
            VideoSourceType::Redirect(s) => s.set_control_by_id(control_id, value),
        }
    }

    fn control_value_by_name(&self, control_name: &str) -> (r: Result<i64, IoError>) {
        match self {
            VideoSourceType::Local(s) => s.control_value_by_name(control_name),
            VideoSourceType::Gst(s) => s.control_value_by_name(control_name),
            VideoSourceType::Redirect(s) => s.control_value_by_name(control_name),
        }
    }

    fn control_value_by_id(&self, control_id: u64) -> (r: Result<i64, IoError>) {
        match self {
            VideoSourceType::Local(s) => s.control_value_by_id(control_id),
            VideoSourceType::Gst(s) => s.control_value_by_id(control_id),
            VideoSourceType::Redirect(s) => s.control_value_by_id(control_id),
        }
    }

    fn controls(&self) -> (r: Vec<Control>) {
        match self {
            VideoSourceType::Local(s) => s.controls(),
            VideoSourceType::Gst(s) => s.controls(),
            VideoSourceType::Redirect(s) => s.controls(),
        }
    }

    fn is_valid(&self) -> bool {
        match self {
            VideoSourceType::Local(s) => s.is_valid(),
            VideoSourceType::Gst(s) => s.is_valid(),
            VideoSourceType::Redirect(s) => s.is_valid(),
        }
    }

    fn is_shareable(&self) -> bool {
        match self {
            VideoSourceType::Local(s) => s.is_shareable(),
            VideoSourceType::Gst(s) => s.is_shareable(),
            VideoSourceType::Redirect(s) => s.is_shareable(),
        }
    }
}

} // verus!

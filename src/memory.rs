use vstd::prelude::*;

use std::collections::HashMap;

use crate::control::{Control, Format};
use crate::error::{ErrorKind, IoError};
use crate::control::agrees;
use crate::source::{has_control_id, VideoSource, VideoSourceAvailable, WriteAttempt};

verus! {

broadcast use vstd::std_specs::hash::group_hash_axioms;

/// A source held in memory: its controls are plain values, and writes to
/// chosen controls can be set to be refused, as a device in use would.
#[derive(Debug)]
pub struct MemorySource {
    name: String,
    identity: String,
    formats: Vec<Format>,
    controls: Vec<Control>,
    values: HashMap<u64, i64>,
    refused: Vec<u64>,
    log: Vec<WriteAttempt>,
}

impl MemorySource {
    /// The ids of the controls whose writes are refused.
    pub closed spec fn refused_ids(&self) -> Seq<u64> {
        self.refused@
    }

    /// A source with the given controls, none written yet and every write
    /// accepted.
    pub fn new(name: String, identity: String, formats: Vec<Format>, controls: Vec<Control>) -> (r: Self)
        ensures
            r.identity() == identity@,
            r.control_list() == controls@,
            r.values() == Map::<u64, i64>::empty(),
            r.refused_ids() == Seq::<u64>::empty(),
            r.attempts() == Seq::<WriteAttempt>::empty(),
    {
        MemorySource {
            name,
            identity,
            formats,
            controls,
            values: HashMap::new(),
            refused: Vec::new(),
            log: Vec::new(),
        }
    }

    /// Every write made to this source, in order.
    pub fn write_log(&self) -> (r: &Vec<WriteAttempt>)
        ensures
            r@ == self.attempts(),
    {
        &self.log
    }

    fn record(&mut self, control_id: u64, value: i64, outcome: &Result<(), IoError>)
        ensures
            final(self).attempts() == old(self).attempts().push((control_id, value, *outcome)),
            final(self).identity() == old(self).identity(),
            final(self).control_list() == old(self).control_list(),
            final(self).values() == old(self).values(),
            final(self).refused_ids() == old(self).refused_ids(),
    {
        let copy: Result<(), IoError> = match outcome {
            Ok(u) => Ok(*u),
            Err(e) => Err(e.duplicate()),
        };
        self.log.push((control_id, value, copy));
    }

    fn write(&mut self, i: usize, value: i64) -> (r: Result<(), IoError>)
        requires
            i < old(self).control_list().len(),
        ensures
            final(self).identity() == old(self).identity(),
            final(self).control_list() == old(self).control_list(),
            final(self).refused_ids() == old(self).refused_ids(),
            final(self).attempts() == old(self).attempts().push(
                (old(self).control_list()[i as int].id, value, r),
            ),
            r is Err ==> final(self).values() == old(self).values(),
            r is Ok ==> final(self).values() == old(self).values().insert(
                old(self).control_list()[i as int].id,
                value,
            ),
    {
        let id = self.controls[i].id;
        let r = if self.is_refused(id) {
            Err(IoError { kind: ErrorKind::PermissionDenied, message: "write refused".to_owned() })
        } else {
            self.values.insert(id, value);
            Ok(())
        };
        self.record(id, value, &r);
        r
    }

    /// From now on, writes to the control `control_id` are refused.
    pub fn refuse_writes(&mut self, control_id: u64)
        ensures
            final(self).identity() == old(self).identity(),
            final(self).control_list() == old(self).control_list(),
            final(self).values() == old(self).values(),
            final(self).attempts() == old(self).attempts(),
            final(self).refused_ids() == old(self).refused_ids().push(control_id),
    {
        self.refused.push(control_id);
    }

    fn is_refused(&self, control_id: u64) -> (r: bool)
        ensures
            r == self.refused@.contains(control_id),
    {
        let mut i: usize = 0;
        while i < self.refused.len()
            invariant
                i <= self.refused@.len(),
                forall|j: int| 0 <= j < i ==> self.refused@[j] != control_id,
            decreases self.refused@.len() - i,
        {
            if self.refused[i] == control_id {
                return true;
            }
            i = i + 1;
        }
        false
    }

    fn position_of_id(&self, control_id: u64) -> (r: Option<usize>)
        ensures
            r is Some ==> r->Some_0 < self.controls@.len() && self.controls@[r->Some_0 as int].id
                == control_id,
            r is None ==> !has_control_id(self.controls@, control_id),
    {
        let mut i: usize = 0;
        while i < self.controls.len()
            invariant
                i <= self.controls@.len(),
                forall|j: int| 0 <= j < i ==> (#[trigger] self.controls@[j]).id != control_id,
            decreases self.controls@.len() - i,
        {
            if self.controls[i].id == control_id {
                return Some(i);
            }
            i = i + 1;
        }
        None
    }

    fn position_of_name(&self, control_name: &str) -> (r: Option<usize>)
        ensures
            r is Some ==> r->Some_0 < self.controls@.len() && self.controls@[r->Some_0 as int].name@
                == control_name@,
    {
        let target = control_name.to_owned();
        let mut i: usize = 0;
        while i < self.controls.len()
            invariant
                i <= self.controls@.len(),
                target@ == control_name@,
            decreases self.controls@.len() - i,
        {
            if self.controls[i].name == target {
                return Some(i);
            }
            i = i + 1;
        }
        None
    }
}

fn not_found(message: &str) -> IoError {
    IoError { kind: ErrorKind::NotFound, message: message.to_owned() }
}

impl VideoSource for MemorySource {
    closed spec fn identity(&self) -> Seq<char> {
        self.identity@
    }

    closed spec fn attempts(&self) -> Seq<WriteAttempt> {
        self.log@
    }

    closed spec fn control_list(&self) -> Seq<Control> {
        self.controls@
    }

    closed spec fn values(&self) -> Map<u64, i64> {
        self.values@
    }

    fn name(&self) -> String {
        self.name.clone()
    }

    fn source_string(&self) -> (r: String) {
        self.identity.clone()
    }

    fn formats(&self) -> Vec<Format> {
        self.formats.clone()
    }

    fn set_control_by_name(&mut self, control_name: &str, value: i64) -> (r: Result<(), IoError>) {
        match self.position_of_name(control_name) {
            Some(i) => {
                let r = self.write(i, value);
                assert(self.controls@[i as int].name@ == control_name@);
                r
            },
            None => {
                let r = Err(not_found("no control of that name"));
                self.record(0, value, &r);
                r
            },
        }
    }

    fn set_control_by_id(&mut self, control_id: u64, value: i64) -> (r: Result<(), IoError>) {
        match self.position_of_id(control_id) {
            Some(i) => {
                let r = self.write(i, value);
                assert(self.controls@[i as int].id == control_id);
                r
            },
            None => {
                let r = Err(not_found("no control of that id"));
                self.record(control_id, value, &r);
                r
            },
        }
    }

    fn control_value_by_name(&self, control_name: &str) -> (r: Result<i64, IoError>) {
        match self.position_of_name(control_name) {
            Some(i) => {
                let id = self.controls[i].id;
                match self.values.get(&id) {
                    Some(v) => {
                        assert(self.controls@[i as int].name@ == control_name@);
                        Ok(*v)
                    },
                    None => Err(not_found("control never written")),
                }
            },
            None => Err(not_found("no control of that name")),
        }
    }

    fn control_value_by_id(&self, control_id: u64) -> (r: Result<i64, IoError>) {
        match self.values.get(&control_id) {
            Some(v) => Ok(*v),
            None => Err(not_found("control never written")),
        }
    }

    fn controls(&self) -> (r: Vec<Control>) {
        let mut r: Vec<Control> = Vec::new();
        let mut i: usize = 0;
        while i < self.controls.len()
            invariant
                i <= self.controls@.len(),
                r@.len() == i,
                forall|j: int| 0 <= j < i ==> agrees(#[trigger] r@[j], self.controls@[j]),
            decreases self.controls@.len() - i,
        {
            r.push(self.controls[i].snapshot());
            i = i + 1;
        }
        r
    }

    fn is_valid(&self) -> bool {
        true
    }

    fn is_shareable(&self) -> bool {
        false
    }
}

impl VideoSourceAvailable for MemorySource {
    /// Memory sources are built, not discovered: discovery finds none.
    fn cameras_available() -> Vec<Self> {
        Vec::new()
    }
}

} // verus!

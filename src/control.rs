use vstd::prelude::*;

verus! {

/// One capture format that a source can deliver.
#[derive(Clone, Debug)]
pub struct Format {
    pub encoding: String,
    pub width: u32,
    pub height: u32,
}

/// An on/off switch.
#[derive(Clone, Debug)]
pub struct ControlBool {
    pub default: bool,
}

/// A numeric control; the bounds are the backend's to enforce.
#[derive(Clone, Debug)]
pub struct ControlSlider {
    pub default: i64,
    pub min: i64,
    pub max: i64,
    pub step: u64,
}

/// One entry of a menu control.
#[derive(Clone, Debug)]
pub struct ControlOption {
    pub name: String,
    pub value: i64,
}

/// A control whose value is one of a discrete set of options.
#[derive(Clone, Debug)]
pub struct ControlMenu {
    pub default: i64,
    pub options: Vec<ControlOption>,
}

/// The shape of a control, with its default value.
#[derive(Clone, Debug)]
pub enum ControlType {
    Bool(ControlBool),
    Slider(ControlSlider),
    Menu(ControlMenu),
}

#[derive(Clone, Copy, Debug)]
pub struct ControlState {
    pub is_inactive: bool,
}

/// A snapshot of one adjustable parameter of a source.
#[derive(Clone, Debug)]
pub struct Control {
    pub name: String,
    pub id: u64,
    pub configuration: ControlType,
    pub state: ControlState,
}

/// The value written to a control to bring it back to its default;
/// a switch is written as 1 (on) or 0 (off).
pub open spec fn default_of(t: ControlType) -> i64 {
    match t {
        ControlType::Bool(b) => if b.default { 1 } else { 0 },
        ControlType::Slider(s) => s.default,
        ControlType::Menu(m) => m.default,
    }
}

/// `a` and `b` describe the same control as far as reading and resetting
/// it goes: same name, id, activity and default value.
pub open spec fn agrees(a: Control, b: Control) -> bool {
    &&& a.name@ == b.name@
    &&& a.id == b.id
    &&& a.state.is_inactive == b.state.is_inactive
    &&& default_of(a.configuration) == default_of(b.configuration)
}

/// Two snapshots of controls that agree position by position.
pub open spec fn same_controls(a: Seq<Control>, b: Seq<Control>) -> bool {
    &&& a.len() == b.len()
    &&& forall|i: int| 0 <= i < a.len() ==> agrees(#[trigger] a[i], b[i])
}

impl ControlType {
    pub fn default_value(&self) -> (r: i64)
        ensures
            r == default_of(*self),
    {
        match self {
            ControlType::Bool(b) => if b.default { 1 } else { 0 },
            ControlType::Slider(s) => s.default,
            ControlType::Menu(m) => m.default,
        }
    }
}

impl Control {
    /// A copy of this control that agrees with it.
    pub fn snapshot(&self) -> (r: Control)
        ensures
            agrees(r, *self),
    {
        let configuration = match &self.configuration {
            ControlType::Bool(b) => ControlType::Bool(ControlBool { default: b.default }),
            ControlType::Slider(s) => ControlType::Slider(
                ControlSlider { default: s.default, min: s.min, max: s.max, step: s.step },
            ),
            ControlType::Menu(m) => ControlType::Menu(
                ControlMenu { default: m.default, options: m.options.clone() },
            ),
        };
        Control {
            name: self.name.clone(),
            id: self.id,
            configuration,
            state: ControlState { is_inactive: self.state.is_inactive },
        }
    }
}

} // verus!

use vstd::prelude::*;

verus! {

/// What a control is, as plain mathematical values.
pub struct ControlView {
    pub group: Seq<char>,
    pub name: Seq<char>,
    pub func: Seq<char>,
    pub value: u8,
}

impl ControlView {
    /// The same control with its level replaced.
    pub open spec fn with_value(self, value: u8) -> ControlView {
        ControlView { value, ..self }
    }
}

/// A named, adjustable parameter of the device and its current level.
#[derive(Debug)]
pub struct Control {
    pub group: String,
    pub name: String,
    pub func: String,
    pub value: u8,
}

impl View for Control {
    type V = ControlView;

    open spec fn view(&self) -> ControlView {
        ControlView { group: self.group@, name: self.name@, func: self.func@, value: self.value }
    }
}

impl Clone for Control {
    fn clone(&self) -> (r: Control)
        ensures
            r@ == self@,
    {
        Control {
            group: self.group.clone(),
            name: self.name.clone(),
            func: self.func.clone(),
            value: self.value,
        }
    }
}

/// The native session handle, held as the address it was opened at.
///
/// Zero stands for a session that the native layer failed to open.
#[derive(Debug)]
pub struct Handle(pub usize);

impl Handle {
    /// The address of the native session.
    pub fn as_ptr(&self) -> (r: usize)
        ensures
            r == self.0,
    {
        self.0
    }

    /// Whether the native open call reported failure.
    pub fn is_null(&self) -> (r: bool)
        ensures
            r == (self.0 == 0),
    {
        self.0 == 0
    }
}

} // verus!

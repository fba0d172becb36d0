//! The layouts of keyboards and how keys are mapped to key bindings.
use crate::platform_input::Keystroke;
use vstd::prelude::*;
use vstd::string::*;

verus! {

/// The layout of the keyboard on iOS.
#[derive(Clone, Copy, Debug, PartialEq, Eq, Structural)]
pub struct IosKeyboardLayout;

impl IosKeyboardLayout {
    pub fn id(&self) -> (id: &'static str)
        ensures
            id@ == "ios"@,
    {
        "ios"
    }

    pub fn name(&self) -> (name: &'static str)
        ensures
            name@ == "iOS"@,
    {
        "iOS"
    }
}

/// Maps keys to key bindings: each to itself.
#[derive(Clone, Copy, Debug, PartialEq, Eq, Structural)]
pub struct IosKeyboardMapper;

impl IosKeyboardMapper {
    /// The keystroke that a key binding is matched with.
    pub fn map_key_equivalent(&self, keystroke: Keystroke, _use_key_equivalents: bool) -> (mapped:
        Keystroke)
        ensures
            mapped == keystroke,
    {
        keystroke
    }
}

/// The layout of the keyboard on Android, which is known by its name alone.
#[derive(Debug, PartialEq, Eq)]
pub struct AndroidKeyboardLayout {
    pub name: String,
}

impl AndroidKeyboardLayout {
    pub fn new(name: String) -> (layout: Self)
        ensures
            layout.name == name,
    {
        AndroidKeyboardLayout { name }
    }

    /// The name stands for the layout.
    pub fn id(&self) -> (id: &str)
        ensures
            id@ == self.name@,
    {
        self.name.as_str()
    }

    pub fn name(&self) -> (name: &str)
        ensures
            name@ == self.name@,
    {
        self.name.as_str()
    }
}

} // verus!

//! Script-visible values and their type tags.

use vstd::prelude::*;

verus! {

/// The type tag of a script value, or the wildcard `Any` in a declaration.
#[derive(Clone, Copy, Debug, PartialEq, Eq, Structural)]
pub enum ASType {
    Any,
    Absent,
    Int,
    String,
    VarRef,
    Label,
}

/// A script value as the frontend hands it to a command.
#[derive(Debug, PartialEq, Eq)]
pub enum ASVariable {
    /// The absence sentinel: no value was given.
    Absent,
    Int(i32),
    String(String),
    /// Names a variable whose value is to be used instead.
    VarRef(String),
    /// A destination of the instruction pointer; `None` while unresolved.
    Label(Option<i32>),
}

/// The mathematical model of an [`ASVariable`]: text is a sequence of characters.
pub enum SpecVariable {
    Absent,
    Int(i32),
    String(Seq<char>),
    VarRef(Seq<char>),
    Label(Option<i32>),
}

impl SpecVariable {
    /// The type tag that the value reports.
    pub open spec fn get_type(self) -> ASType {
        match self {
            SpecVariable::Absent => ASType::Absent,
            SpecVariable::Int(_) => ASType::Int,
            SpecVariable::String(_) => ASType::String,
            SpecVariable::VarRef(_) => ASType::VarRef,
            SpecVariable::Label(_) => ASType::Label,
        }
    }
}

impl View for ASVariable {
    type V = SpecVariable;

    open spec fn view(&self) -> SpecVariable {
        match self {
            ASVariable::Absent => SpecVariable::Absent,
            ASVariable::Int(n) => SpecVariable::Int(*n),
            ASVariable::String(s) => SpecVariable::String(s@),
            ASVariable::VarRef(s) => SpecVariable::VarRef(s@),
            ASVariable::Label(l) => SpecVariable::Label(*l),
        }
    }
}

impl DeepView for ASVariable {
    type V = SpecVariable;

    open spec fn deep_view(&self) -> SpecVariable {
        self@
    }
}

impl Clone for ASVariable {
    fn clone(&self) -> (res: Self)
        ensures
            res == *self,
    {
        match self {
            ASVariable::Absent => ASVariable::Absent,
            ASVariable::Int(n) => ASVariable::Int(*n),
            ASVariable::String(s) => ASVariable::String(s.clone()),
            ASVariable::VarRef(s) => ASVariable::VarRef(s.clone()),
            ASVariable::Label(l) => ASVariable::Label(*l),
        }
    }
}

impl ASVariable {
    /// The type tag of this value.
    pub fn get_type(&self) -> (t: ASType)
        ensures
            t == self@.get_type(),
    {
        match self {
            ASVariable::Absent => ASType::Absent,
            ASVariable::Int(_) => ASType::Int,
            ASVariable::String(_) => ASType::String,
            ASVariable::VarRef(_) => ASType::VarRef,
            ASVariable::Label(_) => ASType::Label,
        }
    }
}

} // verus!

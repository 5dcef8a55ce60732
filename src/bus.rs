//! The enumerations that the bus library defines, with their numeric codes.
use vstd::prelude::*;

verus! {

/// Which bus daemon a connection targets.
#[derive(Clone, Copy, Debug, PartialEq, Eq, Structural)]
pub enum DBusBusType {
    Session,
    System,
    Starter,
}

#[derive(Clone, Copy, Debug, PartialEq, Eq, Structural)]
pub enum DBusNameFlag {
    AllowReplacement,
    ReplaceExisting,
    DoNotQueue,
}

#[derive(Clone, Copy, Debug, PartialEq, Eq, Structural)]
pub enum DBusRequestNameReply {
    PrimaryOwner,
    InQueue,
    Exists,
    AlreadyOwner,
}

#[derive(Clone, Copy, Debug, PartialEq, Eq, Structural)]
pub enum DBusReleaseNameReply {
    Released,
    NonExistent,
    NotOwner,
}

#[derive(Clone, Copy, Debug, PartialEq, Eq, Structural)]
pub enum DBusHandlerResult {
    Handled,
    NotYetHandled,
    NeedMemory,
}

/// The type tag of a message.
#[derive(Clone, Copy, Debug, PartialEq, Eq, Structural)]
pub enum DBusMessageType {
    Invalid,
    MethodCall,
    MethodReturn,
    Error,
    Signal,
}

#[derive(Clone, Copy, Debug, PartialEq, Eq, Structural)]
pub enum DBusDispatchStatus {
    DataRemains,
    Complete,
    NeedMemory,
}

impl DBusBusType {
    pub fn code(&self) -> (r: u32)
        ensures
            r == match *self {
                DBusBusType::Session => 0u32,
                DBusBusType::System => 1,
                DBusBusType::Starter => 2,
            },
    {
        match self {
            DBusBusType::Session => 0,
            DBusBusType::System => 1,
            DBusBusType::Starter => 2,
        }
    }
}

impl DBusNameFlag {
    /// The flag's bit.
    pub fn code(&self) -> (r: u32)
        ensures
            r == match *self {
                DBusNameFlag::AllowReplacement => 1u32,
                DBusNameFlag::ReplaceExisting => 2,
                DBusNameFlag::DoNotQueue => 4,
            },
    {
        match self {
            DBusNameFlag::AllowReplacement => 1,
            DBusNameFlag::ReplaceExisting => 2,
            DBusNameFlag::DoNotQueue => 4,
        }
    }
}

impl DBusMessageType {
    pub open spec fn spec_code(self) -> u32 {
        match self {
            DBusMessageType::Invalid => 0u32,
            DBusMessageType::MethodCall => 1,
            DBusMessageType::MethodReturn => 2,
            DBusMessageType::Error => 3,
            DBusMessageType::Signal => 4,
        }
    }

    pub fn code(&self) -> (r: u32)
        ensures
            r == self.spec_code(),
    {
        match self {
            DBusMessageType::Invalid => 0,
            DBusMessageType::MethodCall => 1,
            DBusMessageType::MethodReturn => 2,
            DBusMessageType::Error => 3,
            DBusMessageType::Signal => 4,
        }
    }

    /// The message type with code `c`; any code the library does not define
    /// reads as `Invalid`.
    pub fn from_code(c: u32) -> (r: DBusMessageType)
        ensures
            c <= 4 ==> r.spec_code() == c,
            c > 4 ==> r == DBusMessageType::Invalid,
    {
        if c == 1 {
            DBusMessageType::MethodCall
        } else if c == 2 {
            DBusMessageType::MethodReturn
        } else if c == 3 {
            DBusMessageType::Error
        } else if c == 4 {
            DBusMessageType::Signal
        } else {
            DBusMessageType::Invalid
        }
    }
}

} // verus!

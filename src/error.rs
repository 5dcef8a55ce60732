//! The error carrier: a D-Bus error name and a human-readable message.
use vstd::prelude::*;
use vstd::string::*;

verus! {

pub open spec fn invalid_args_name() -> Seq<char> {
    "org.freedesktop.DBus.Error.InvalidArgs"@
}

pub open spec fn failed_name() -> Seq<char> {
    "org.freedesktop.DBus.Error.Failed"@
}

/// An error with a name drawn from the D-Bus error-naming convention and a
/// message. An empty name means that nothing has set the error yet.
#[derive(Clone, Debug, PartialEq)]
pub struct Error {
    pub name: String,
    pub message: String,
}

impl Error {
    /// An error that nothing has set yet.
    pub fn empty() -> (r: Error)
        ensures
            r.name@.len() == 0,
            r.message@.len() == 0,
    {
        Error { name: String::new(), message: String::new() }
    }

    pub fn new(name: &str, message: &str) -> (r: Error)
        ensures
            r.name@ == name@,
            r.message@ == message@,
    {
        Error { name: String::from_str(name), message: String::from_str(message) }
    }

    /// The error for a value that breaks a rule of its type.
    pub fn invalid_argument(message: &str) -> (r: Error)
        ensures
            r.name@ == invalid_args_name(),
            r.message@ == message@,
    {
        Error::new("org.freedesktop.DBus.Error.InvalidArgs", message)
    }

    pub fn is_set(&self) -> (r: bool)
        ensures
            r == (self.name@.len() > 0),
    {
        self.name.unicode_len() > 0
    }

    pub fn is_invalid_argument(&self) -> (r: bool)
        ensures
            r == (self.name@ == invalid_args_name()),
    {
        let expected = String::from_str("org.freedesktop.DBus.Error.InvalidArgs");
        self.name == expected
    }

    pub fn name(&self) -> (r: &str)
        requires
            self.name@.len() > 0,
        ensures
            r@ == self.name@,
    {
        self.name.as_str()
    }

    pub fn message(&self) -> (r: &str)
        requires
            self.name@.len() > 0,
        ensures
            r@ == self.message@,
    {
        self.message.as_str()
    }
}

} // verus!

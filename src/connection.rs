//! The blocking call protocol. A connection builds the method call to send
//! and classifies the reply that comes back; the transport that opens the
//! bus, sends, and waits is outside this library and hands its outcomes in.
//!
//! One call at a time: a caller sends the call that `method_call` built,
//! waits for its reply, and hands that reply to `finish_call` before it
//! builds the next. Overlapping calls on one connection are not supported.
//! Both steps depend on their arguments alone, so calls made one after the
//! other succeed or fail independently of their order.
use vstd::prelude::*;
use vstd::string::*;
use crate::bus::DBusBusType;
use crate::error::{Error, failed_name, invalid_args_name};
use crate::marshal::{append_all, decode_all};
use crate::message::{Message, MethodCall, MethodReturn, call_of};
use crate::value::{
    ItemModel, MessageItem, all_buildable, all_items_buildable, models_of, lemma_models_of_index,
    lemma_models_of_len,
};
use crate::wire::{WireElem, WireModel, decs, encs, wire_models};

verus! {

/// An open, private connection to one bus.
#[derive(Clone, Debug, PartialEq)]
pub struct Connection {
    pub bus: DBusBusType,
    /// Whether the process should exit when the bus goes away; always false:
    /// a lost bus is reported to the caller instead.
    pub exit_on_disconnect: bool,
}

/// A reply as the transport received it.
#[derive(Debug, PartialEq)]
pub struct Reply {
    pub msg_type: crate::bus::DBusMessageType,
    pub reply_serial: u32,
    /// The error name, for an error reply.
    pub error_name: String,
    pub body: Vec<WireElem>,
}

/// The message of an error reply: the first value of its body where that is
/// a string, else empty.
pub open spec fn error_text(ms: Seq<ItemModel>) -> Seq<char> {
    if ms.len() > 0 && ms[0] is Str {
        ms[0]->Str_0
    } else {
        Seq::empty()
    }
}

impl Connection {
    /// The connection to the session bus, given the outcome of opening a
    /// private link to it.
    pub fn new(opened: Result<(), Error>) -> (r: Result<Connection, Error>)
        ensures
            opened is Ok ==> r is Ok && r->Ok_0.bus == DBusBusType::Session
                && !r->Ok_0.exit_on_disconnect,
            opened is Err ==> r is Err && r->Err_0 == opened->Err_0,
    {
        Connection::new_for_type(DBusBusType::Session, opened)
    }

    /// The connection to the bus `bus`, given the outcome of opening a
    /// private link to it: a failure to open is returned as it came.
    pub fn new_for_type(bus: DBusBusType, opened: Result<(), Error>) -> (r: Result<Connection, Error>)
        ensures
            opened is Ok ==> r is Ok && r->Ok_0.bus == bus && !r->Ok_0.exit_on_disconnect,
            opened is Err ==> r is Err && r->Err_0 == opened->Err_0,
    {
        match opened {
            Ok(()) => Ok(Connection { bus, exit_on_disconnect: false }),
            Err(e) => Err(e),
        }
    }

    /// The method call that carries `args` to `method` of `iface` at `path`
    /// of `destination`, ready to send; fails with an invalid-argument error
    /// where one of `args` could not be built by the checked constructors.
    pub fn method_call(
        &self,
        destination: &str,
        path: &str,
        iface: &str,
        method: &str,
        args: &[MessageItem],
    ) -> (r: Result<MethodCall, Error>)
        requires
            path@.len() > 0,
            method@.len() > 0,
        ensures
            r is Ok <==> all_buildable(models_of(args@)),
            r is Ok ==> r->Ok_0@ == call_of(destination@, path@, iface@, method@, models_of(args@))
                && r->Ok_0.serial == 0,
            r is Err ==> r->Err_0.name@ == invalid_args_name(),
    {
        if !all_items_buildable(args) {
            return Err(Error::invalid_argument("a value breaks a rule of its type"));
        }
        let mut msg = MethodCall::new(destination, path, iface, method);
        append_all(&mut msg.body, args);
        proof {
            assert(wire_models(Seq::<WireElem>::empty()) =~= Seq::<WireModel>::empty());
            assert(Seq::<WireModel>::empty() + encs(models_of(args@)) =~= encs(models_of(args@)));
        }
        Ok(msg)
    }

    /// Classifies what the transport got for a call: a method return is
    /// the result; an error reply becomes an error with the remote name (the
    /// generic failure name where the reply has none) and message; a failure
    /// to send or to receive is returned as it came.
    /// Any other reply breaks the call protocol and is the caller's to reject.
    pub fn finish_call(&self, outcome: Result<Reply, Error>) -> (r: Result<MethodReturn, Error>)
        requires
            outcome is Ok ==> (outcome->Ok_0.msg_type == crate::bus::DBusMessageType::MethodReturn
                || outcome->Ok_0.msg_type == crate::bus::DBusMessageType::Error),
        ensures
            outcome is Err ==> r is Err && r->Err_0 == outcome->Err_0,
            outcome is Ok && outcome->Ok_0.msg_type == crate::bus::DBusMessageType::MethodReturn
                ==> r is Ok && r->Ok_0.reply_serial == outcome->Ok_0.reply_serial
                && r->Ok_0.destination@.len() == 0
                && r->Ok_0.body_model() == wire_models(outcome->Ok_0.body@),
            outcome is Ok && outcome->Ok_0.msg_type == crate::bus::DBusMessageType::Error
                ==> r is Err && r->Err_0.name@ == (if outcome->Ok_0.error_name@.len() == 0 {
                failed_name()
            } else {
                outcome->Ok_0.error_name@
            }) && r->Err_0.name@.len() > 0
                && r->Err_0.message@ == error_text(decs(wire_models(outcome->Ok_0.body@))),
    {
        match outcome {
            Err(e) => Err(e),
            Ok(reply) => {
                match reply.msg_type {
                    crate::bus::DBusMessageType::MethodReturn => Ok(
                        MethodReturn {
                            reply_serial: reply.reply_serial,
                            destination: String::new(),
                            body: reply.body,
                        },
                    ),
                    _ => {
                        let items = decode_all(&reply.body);
                        proof {
                            lemma_models_of_len(items@);
                        }
                        let mut message = String::new();
                        if items.len() > 0 {
                            proof {
                                lemma_models_of_index(items@, 0);
                            }
                            match &items[0] {
                                MessageItem::Str(s) => {
                                    message = s.clone();
                                },
                                _ => {},
                            }
                        }
                        let name = if reply.error_name.unicode_len() == 0 {
                            String::from_str("org.freedesktop.DBus.Error.Failed")
                        } else {
                            reply.error_name
                        };
                        proof {
                            reveal_strlit("org.freedesktop.DBus.Error.Failed");
                        }
                        Err(Error { name, message })
                    },
                }
            },
        }
    }

    /// An object stub for `path` at `destination` on this connection.
    pub fn stub<'a>(&'a self, destination: &str, path: &str) -> (r: Object<'a>)
        ensures
            r.conn == self,
            r.destination@ == destination@,
            r.path@ == path@,
    {
        Object::new(self, destination, path)
    }
}

/// A destination and an object path on a connection, to call methods of
/// that object without naming them each time. It borrows the connection, so
/// no call can go through it once the connection is gone: the compiler
/// rejects such a use.
pub struct Object<'a> {
    pub conn: &'a Connection,
    pub destination: String,
    pub path: String,
}

impl<'a> Object<'a> {
    pub fn new(conn: &'a Connection, destination: &str, path: &str) -> (r: Object<'a>)
        ensures
            r.conn == conn,
            r.destination@ == destination@,
            r.path@ == path@,
    {
        Object { conn, destination: String::from_str(destination), path: String::from_str(path) }
    }

    /// The call of `method` of `iface` on this object.
    pub fn call_full(&self, iface: &str, method: &str, args: &[MessageItem]) -> (r: Result<MethodCall, Error>)
        requires
            self.path@.len() > 0,
            method@.len() > 0,
        ensures
            r is Ok <==> all_buildable(models_of(args@)),
            r is Ok ==> r->Ok_0@ == call_of(self.destination@, self.path@, iface@, method@, models_of(args@))
                && r->Ok_0.serial == 0,
            r is Err ==> r->Err_0.name@ == invalid_args_name(),
    {
        self.conn.method_call(self.destination.as_str(), self.path.as_str(), iface, method, args)
    }

    /// The call of `method` on this object with no interface named: the
    /// call that the connection builds for this destination and path with
    /// an empty interface.
    pub fn call(&self, method: &str, args: &[MessageItem]) -> (r: Result<MethodCall, Error>)
        requires
            self.path@.len() > 0,
            method@.len() > 0,
        ensures
            r is Ok <==> all_buildable(models_of(args@)),
            r is Ok ==> r->Ok_0@ == call_of(self.destination@, self.path@, Seq::empty(), method@, models_of(args@))
                && r->Ok_0.serial == 0,
            r is Err ==> r->Err_0.name@ == invalid_args_name(),
    {
        let none = "";
        proof {
            reveal_strlit("");
            assert(none@ =~= Seq::<char>::empty());
        }
        self.call_full(none, method, args)
    }
}

} // verus!

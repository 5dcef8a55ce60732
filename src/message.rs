//! The message kinds: method calls, method returns and error replies. Each
//! holds its routing fields and a body that the marshaller fills and reads.
use vstd::prelude::*;
use vstd::string::*;
use crate::error::{Error, failed_name, invalid_args_name};
use crate::marshal::{append_all, decode_all};
use crate::value::{ItemModel, MessageItem, all_buildable, all_items_buildable, models_of};
use crate::wire::{WireElem, WireModel, decs, enc, encs, wire_models, lemma_round_trip_seq};

verus! {

/// What every message offers: its values, read from its body, and a way to
/// append values to the body.
pub trait Message {
    spec fn body_model(&self) -> Seq<WireModel>;

    /// Everything but the body: serials, routing fields and names.
    spec fn header(&self) -> (u32, Seq<Seq<char>>);

    fn get_items(&self) -> (r: Vec<MessageItem>)
        ensures
            models_of(r@) == decs(self.body_model()),
            all_buildable(models_of(r@)),
    ;

    /// Appends the values of `v` to the body; fails with an
    /// invalid-argument error, and leaves the body as it was, where one of
    /// them could not be built by the checked constructors.
    fn append_items(&mut self, v: &[MessageItem]) -> (r: Result<(), Error>)
        ensures
            final(self).header() == old(self).header(),
            r is Ok <==> all_buildable(models_of(v@)),
            r is Ok ==> final(self).body_model() == old(self).body_model() + encs(models_of(v@)),
            r is Err ==> final(self).body_model() == old(self).body_model()
                && r->Err_0.name@ == invalid_args_name(),
    ;
}

/// A request to invoke `member` of `interface` on the object at `path` of
/// the peer `destination`. An empty destination means peer to peer; an
/// empty interface leaves the method name to identify the method.
#[derive(Debug, PartialEq)]
pub struct MethodCall {
    pub destination: String,
    pub path: String,
    pub interface: String,
    pub member: String,
    /// The serial the bus gave the call when it was sent; 0 before that.
    pub serial: u32,
    /// The unique name of the caller, where the call was received.
    pub sender: String,
    pub body: Vec<WireElem>,
}

/// A successful reply.
#[derive(Debug, PartialEq)]
pub struct MethodReturn {
    pub reply_serial: u32,
    pub destination: String,
    pub body: Vec<WireElem>,
}

/// An error reply: an error name, with the human-readable message as the
/// first value of its body.
#[derive(Debug, PartialEq)]
pub struct ErrorReply {
    pub reply_serial: u32,
    pub destination: String,
    pub name: String,
    pub body: Vec<WireElem>,
}

/// A method call as a value: its routing fields and its body.
pub ghost struct CallModel {
    pub destination: Seq<char>,
    pub path: Seq<char>,
    pub interface: Seq<char>,
    pub member: Seq<char>,
    pub body: Seq<WireModel>,
}

/// The call that carries `args` to `member` of `interface` at `path` of
/// `destination`.
pub open spec fn call_of(
    destination: Seq<char>,
    path: Seq<char>,
    interface: Seq<char>,
    member: Seq<char>,
    args: Seq<ItemModel>,
) -> CallModel {
    CallModel { destination, path, interface, member, body: encs(args) }
}

impl View for MethodCall {
    type V = CallModel;

    open spec fn view(&self) -> CallModel {
        CallModel {
            destination: self.destination@,
            path: self.path@,
            interface: self.interface@,
            member: self.member@,
            body: wire_models(self.body@),
        }
    }
}

impl Message for MethodCall {
    open spec fn body_model(&self) -> Seq<WireModel> {
        wire_models(self.body@)
    }

    open spec fn header(&self) -> (u32, Seq<Seq<char>>) {
        (
            self.serial,
            seq![self.destination@, self.path@, self.interface@, self.member@, self.sender@],
        )
    }

    fn get_items(&self) -> (r: Vec<MessageItem>) {
        decode_all(&self.body)
    }

    fn append_items(&mut self, v: &[MessageItem]) -> (r: Result<(), Error>) {
        if !all_items_buildable(v) {
            return Err(Error::invalid_argument("a value breaks a rule of its type"));
        }
        append_all(&mut self.body, v);
        Ok(())
    }
}

impl Message for MethodReturn {
    open spec fn body_model(&self) -> Seq<WireModel> {
        wire_models(self.body@)
    }

    open spec fn header(&self) -> (u32, Seq<Seq<char>>) {
        (self.reply_serial, seq![self.destination@])
    }

    fn get_items(&self) -> (r: Vec<MessageItem>) {
        decode_all(&self.body)
    }

    fn append_items(&mut self, v: &[MessageItem]) -> (r: Result<(), Error>) {
        if !all_items_buildable(v) {
            return Err(Error::invalid_argument("a value breaks a rule of its type"));
        }
        append_all(&mut self.body, v);
        Ok(())
    }
}

impl Message for ErrorReply {
    open spec fn body_model(&self) -> Seq<WireModel> {
        wire_models(self.body@)
    }

    open spec fn header(&self) -> (u32, Seq<Seq<char>>) {
        (self.reply_serial, seq![self.destination@, self.name@])
    }

    fn get_items(&self) -> (r: Vec<MessageItem>) {
        decode_all(&self.body)
    }

    fn append_items(&mut self, v: &[MessageItem]) -> (r: Result<(), Error>) {
        if !all_items_buildable(v) {
            return Err(Error::invalid_argument("a value breaks a rule of its type"));
        }
        append_all(&mut self.body, v);
        Ok(())
    }
}

impl MethodCall {
    /// A new method call with an empty body.
    pub fn new(destination: &str, path: &str, iface: &str, method: &str) -> (r: MethodCall)
        requires
            path@.len() > 0,
            method@.len() > 0,
        ensures
            r@ == call_of(destination@, path@, iface@, method@, Seq::empty()),
            r.serial == 0,
            r.sender@.len() == 0,
    {
        MethodCall {
            destination: String::from_str(destination),
            path: String::from_str(path),
            interface: String::from_str(iface),
            member: String::from_str(method),
            serial: 0,
            sender: String::new(),
            body: Vec::new(),
        }
    }

    /// An empty successful reply to this call.
    pub fn new_return(&self) -> (r: MethodReturn)
        ensures
            r.reply_serial == self.serial,
            r.destination@ == self.sender@,
            r.body@.len() == 0,
    {
        MethodReturn { reply_serial: self.serial, destination: self.sender.clone(), body: Vec::new() }
    }

    /// An empty successful reply to this call.
    pub fn new_response(&self) -> (r: MethodReturn)
        ensures
            r.reply_serial == self.serial,
            r.destination@ == self.sender@,
            r.body@.len() == 0,
    {
        self.new_return()
    }

    /// A successful reply to this call that carries the values `v`; fails
    /// with an invalid-argument error where one of them could not be built by
    /// the checked constructors.
    pub fn respond_with(&self, v: &[MessageItem]) -> (r: Result<MethodReturn, Error>)
        ensures
            r is Ok <==> all_buildable(models_of(v@)),
            r is Ok ==> r->Ok_0.reply_serial == self.serial && r->Ok_0.destination@ == self.sender@
                && r->Ok_0.body_model() == encs(models_of(v@))
                && decs(r->Ok_0.body_model()) == models_of(v@),
            r is Err ==> r->Err_0.name@ == invalid_args_name(),
    {
        if !all_items_buildable(v) {
            return Err(Error::invalid_argument("a value breaks a rule of its type"));
        }
        let mut response = self.new_return();
        append_all(&mut response.body, v);
        proof {
            assert(wire_models(Seq::<WireElem>::empty()) =~= Seq::<WireModel>::empty());
            assert(Seq::<WireModel>::empty() + encs(models_of(v@)) =~= encs(models_of(v@)));
            lemma_round_trip_seq(models_of(v@));
        }
        Ok(response)
    }

    /// An error reply to this call with the error `name` and `message`; an
    /// empty name is replaced by the generic failure name.
    pub fn new_error(&self, name: &str, message: &str) -> (r: ErrorReply)
        ensures
            r.reply_serial == self.serial,
            r.destination@ == self.sender@,
            r.name@ == (if name@.len() == 0 { failed_name() } else { name@ }),
            r.body_model() == seq![enc(ItemModel::Str(message@))],
    {
        let n = if name.unicode_len() == 0 {
            String::from_str("org.freedesktop.DBus.Error.Failed")
        } else {
            String::from_str(name)
        };
        let mut reply = ErrorReply {
            reply_serial: self.serial,
            destination: self.sender.clone(),
            name: n,
            body: Vec::new(),
        };
        let text = vec![MessageItem::Str(String::from_str(message))];
        proof {
            crate::value::lemma_models_of_pushed(Seq::empty(), text@[0]);
            assert(text@ =~= Seq::<MessageItem>::empty().push(text@[0]));
            assert(models_of(text@).drop_last() =~= Seq::<ItemModel>::empty());
            assert(all_buildable(Seq::<ItemModel>::empty()));
            assert(models_of(Seq::<MessageItem>::empty()) =~= Seq::<ItemModel>::empty());
            let ms = models_of(text@);
            assert(ms =~= seq![ItemModel::Str(message@)]);
            assert(ms.len() == 1);
            assert(crate::value::buildable(ms.last()));
            assert(all_buildable(ms));
        }
        append_all(&mut reply.body, text.as_slice());
        proof {
            assert(wire_models(Seq::<WireElem>::empty()) =~= Seq::<WireModel>::empty());
            assert(text@ =~= Seq::<MessageItem>::empty().push(text@[0]));
            crate::value::lemma_models_of_pushed(Seq::empty(), text@[0]);
            let ms = models_of(text@);
            assert(ms.drop_last() =~= Seq::<ItemModel>::empty());
            assert(ms.last() == ItemModel::Str(message@));
            assert(encs(ms.drop_last()) =~= Seq::<WireModel>::empty());
            assert(encs(ms) =~= seq![enc(ItemModel::Str(message@))]);
            assert(reply.body_model() =~= seq![enc(ItemModel::Str(message@))]);
        }
        reply
    }
}

} // verus!

//! The body of a message as a message cursor sees it: each element is a basic
//! value tagged with its type code, or a container tagged with its type code
//! and signature, holding the elements that a sub-cursor walks.
use vstd::prelude::*;
use crate::value::{ItemModel, all_buildable, all_of_sig, buildable, is_container, sig, sigs, valid_path};

verus! {

/// The raw payload of a basic element.
#[derive(Clone, Debug, PartialEq)]
pub enum Payload {
    Unsigned(u64),
    Signed(i64),
    Flag(bool),
    Text(String),
}

/// One element of a message body.
#[derive(Debug, PartialEq)]
pub enum WireElem {
    Basic(char, Payload),
    /// Type code, the signature that the container was opened with, and
    /// the elements inside.
    Container(char, String, Vec<WireElem>),
}

pub ghost enum PayloadModel {
    Unsigned(u64),
    Signed(i64),
    Flag(bool),
    Text(Seq<char>),
}

pub ghost enum WireModel {
    Basic(char, PayloadModel),
    Container(char, Seq<char>, Seq<WireModel>),
}

pub open spec fn payload_model(p: Payload) -> PayloadModel {
    match p {
        Payload::Unsigned(u) => PayloadModel::Unsigned(u),
        Payload::Signed(s) => PayloadModel::Signed(s),
        Payload::Flag(b) => PayloadModel::Flag(b),
        Payload::Text(t) => PayloadModel::Text(t@),
    }
}

pub open spec fn wire_model(w: WireElem) -> WireModel
    decreases w,
{
    match w {
        WireElem::Basic(c, p) => WireModel::Basic(c, payload_model(p)),
        WireElem::Container(c, s, ws) => WireModel::Container(c, s@, wire_models(ws@)),
    }
}

pub open spec fn wire_models(s: Seq<WireElem>) -> Seq<WireModel>
    decreases s,
{
    if s.len() == 0 {
        Seq::empty()
    } else {
        wire_models(s.drop_last()).push(wire_model(s.last()))
    }
}

impl View for WireElem {
    type V = WireModel;

    open spec fn view(&self) -> WireModel {
        wire_model(*self)
    }
}

pub proof fn lemma_wire_models_pushed(s: Seq<WireElem>, x: WireElem)
    ensures
        wire_models(s.push(x)) == wire_models(s).push(wire_model(x)),
{
    assert(s.push(x).drop_last() =~= s);
}

pub proof fn lemma_wire_models_len(s: Seq<WireElem>)
    ensures
        wire_models(s).len() == s.len(),
    decreases s.len(),
{
    if s.len() > 0 {
        lemma_wire_models_len(s.drop_last());
    }
}

pub proof fn lemma_wire_models_index(s: Seq<WireElem>, i: int)
    requires
        0 <= i < s.len(),
    ensures
        wire_models(s)[i] == wire_model(s[i]),
    decreases s.len(),
{
    lemma_wire_models_len(s.drop_last());
    if i < s.len() - 1 {
        lemma_wire_models_index(s.drop_last(), i);
    }
}

/// Type codes of the containers on the wire.
pub open spec fn struct_code() -> char {
    'r'
}

pub open spec fn dict_entry_code() -> char {
    'e'
}

/// What the marshaller writes for one value.
pub open spec fn enc(m: ItemModel) -> WireModel
    decreases m,
{
    match m {
        ItemModel::Byte(x) => WireModel::Basic('y', PayloadModel::Unsigned(x as u64)),
        ItemModel::Bool(x) => WireModel::Basic('b', PayloadModel::Flag(x)),
        ItemModel::Int16(x) => WireModel::Basic('n', PayloadModel::Signed(x as i64)),
        ItemModel::UInt16(x) => WireModel::Basic('q', PayloadModel::Unsigned(x as u64)),
        ItemModel::Int32(x) => WireModel::Basic('i', PayloadModel::Signed(x as i64)),
        ItemModel::UInt32(x) => WireModel::Basic('u', PayloadModel::Unsigned(x as u64)),
        ItemModel::Int64(x) => WireModel::Basic('x', PayloadModel::Signed(x)),
        ItemModel::UInt64(x) => WireModel::Basic('t', PayloadModel::Unsigned(x)),
        ItemModel::Str(t) => WireModel::Basic('s', PayloadModel::Text(t)),
        ItemModel::ObjectPath(t) => WireModel::Basic('o', PayloadModel::Text(t)),
        ItemModel::Array(items, el) => WireModel::Container('a', el, encs(items)),
        ItemModel::Struct(items) => WireModel::Container(struct_code(), Seq::empty(), encs(items)),
        ItemModel::DictEntry(k, x) => WireModel::Container(
            dict_entry_code(),
            Seq::empty(),
            seq![enc(*k), enc(*x)],
        ),
        ItemModel::Variant(x) => WireModel::Container('v', sig(*x), seq![enc(*x)]),
    }
}

/// What the marshaller writes for a sequence of values, in order.
pub open spec fn encs(ms: Seq<ItemModel>) -> Seq<WireModel>
    decreases ms,
{
    if ms.len() == 0 {
        Seq::empty()
    } else {
        encs(ms.drop_last()).push(enc(ms.last()))
    }
}

/// What a basic element reads as, if its payload fits its type code.
pub open spec fn dec_basic(c: char, p: PayloadModel) -> Option<ItemModel> {
    match p {
        PayloadModel::Unsigned(u) => if c == 'y' && u <= 0xff {
            Some(ItemModel::Byte(u as u8))
        } else if c == 'q' && u <= 0xffff {
            Some(ItemModel::UInt16(u as u16))
        } else if c == 'u' && u <= 0xffff_ffff {
            Some(ItemModel::UInt32(u as u32))
        } else if c == 't' {
            Some(ItemModel::UInt64(u))
        } else {
            None
        },
        PayloadModel::Signed(s) => if c == 'n' && -0x8000 <= s <= 0x7fff {
            Some(ItemModel::Int16(s as i16))
        } else if c == 'i' && -0x8000_0000 <= s <= 0x7fff_ffff {
            Some(ItemModel::Int32(s as i32))
        } else if c == 'x' {
            Some(ItemModel::Int64(s))
        } else {
            None
        },
        PayloadModel::Flag(b) => if c == 'b' {
            Some(ItemModel::Bool(b))
        } else {
            None
        },
        PayloadModel::Text(t) => if c == 's' {
            Some(ItemModel::Str(t))
        } else if c == 'o' && valid_path(t) {
            Some(ItemModel::ObjectPath(t))
        } else {
            None
        },
    }
}

/// What one element reads as. `None` marks an element that cannot be read:
/// an unknown type code, a payload that does not fit its code, an object
/// path that is not valid, an array element without the array's element
/// signature, a dictionary entry whose key is a container, or a dictionary
/// entry or variant without the right number of readable members. A variant's value carries its own signature, so the one the
/// container was opened with is not consulted.
pub open spec fn dec(w: WireModel) -> Option<ItemModel>
    decreases w,
{
    match w {
        WireModel::Basic(c, p) => dec_basic(c, p),
        WireModel::Container(c, s, ws) => if c == 'a' {
            if all_of_sig(decs(ws), s) {
                Some(ItemModel::Array(decs(ws), s))
            } else {
                None
            }
        } else if c == struct_code() {
            Some(ItemModel::Struct(decs(ws)))
        } else if c == dict_entry_code() {
            if ws.len() == 2 && dec(ws[0]) is Some && dec(ws[1]) is Some && !is_container(
                dec(ws[0])->Some_0,
            ) {
                Some(ItemModel::DictEntry(
                    Box::new(dec(ws[0])->Some_0),
                    Box::new(dec(ws[1])->Some_0),
                ))
            } else {
                None
            }
        } else if c == 'v' {
            if ws.len() == 1 && dec(ws[0]) is Some {
                Some(ItemModel::Variant(Box::new(dec(ws[0])->Some_0)))
            } else {
                None
            }
        } else {
            None
        },
    }
}

/// What a sequence of elements reads as: the values read in order, up to
/// the first element that cannot be read. That element and all after it
/// are left out.
pub open spec fn decs(ws: Seq<WireModel>) -> Seq<ItemModel>
    decreases ws,
{
    if ws.len() == 0 {
        Seq::empty()
    } else {
        let prev = decs(ws.drop_last());
        if prev.len() == ws.len() - 1 && dec(ws.last()) is Some {
            prev.push(dec(ws.last())->Some_0)
        } else {
            prev
        }
    }
}

pub proof fn lemma_encs_len(ms: Seq<ItemModel>)
    ensures
        encs(ms).len() == ms.len(),
    decreases ms.len(),
{
    if ms.len() > 0 {
        lemma_encs_len(ms.drop_last());
    }
}

/// Once an element cannot be read, the elements after it change nothing.
pub proof fn lemma_decs_stuck(ws: Seq<WireModel>, i: int, j: int)
    requires
        0 <= i <= j <= ws.len(),
        decs(ws.take(i)).len() < i,
    ensures
        decs(ws.take(j)) == decs(ws.take(i)),
    decreases j - i,
{
    if j > i {
        lemma_decs_stuck(ws, i, j - 1);
        assert(ws.take(j).drop_last() =~= ws.take(j - 1));
    }
}

/// Reading back what the marshaller wrote for a value gives that value.
pub proof fn lemma_round_trip(m: ItemModel)
    requires
        buildable(m),
    ensures
        dec(enc(m)) == Some(m),
    decreases m,
{
    match m {
        ItemModel::Array(items, el) => {
            lemma_round_trip_seq(items);
        },
        ItemModel::Struct(items) => {
            lemma_round_trip_seq(items);
        },
        ItemModel::DictEntry(k, x) => {
            lemma_round_trip(*k);
            lemma_round_trip(*x);
        },
        ItemModel::Variant(x) => {
            lemma_round_trip(*x);
        },
        _ => {},
    }
}

/// Reading back what the marshaller wrote for a sequence of values gives
/// that sequence.
pub proof fn lemma_round_trip_seq(ms: Seq<ItemModel>)
    requires
        all_buildable(ms),
    ensures
        decs(encs(ms)) == ms,
    decreases ms,
{
    if ms.len() > 0 {
        let ws = encs(ms);
        lemma_encs_len(ms);
        lemma_encs_len(ms.drop_last());
        assert(ws.drop_last() =~= encs(ms.drop_last()));
        lemma_round_trip_seq(ms.drop_last());
        lemma_round_trip(ms.last());
        assert(decs(ws) =~= ms);
    }
}

/// The signature of a value is the signature of what reading back its
/// encoding gives.
pub proof fn lemma_signature_round_trip(m: ItemModel)
    requires
        buildable(m),
    ensures
        dec(enc(m)) is Some,
        sig(dec(enc(m))->Some_0) == sig(m),
{
    lemma_round_trip(m);
}

/// Whatever an element reads as can be built.
pub proof fn lemma_dec_buildable(w: WireModel)
    ensures
        dec(w) is Some ==> buildable(dec(w)->Some_0),
    decreases w,
{
    match w {
        WireModel::Container(c, s, ws) => {
            lemma_decs_buildable(ws);
            if ws.len() >= 1 {
                lemma_dec_buildable(ws[0]);
            }
            if ws.len() >= 2 {
                lemma_dec_buildable(ws[1]);
            }
        },
        _ => {},
    }
}

/// Whatever a sequence of elements reads as can be built.
pub proof fn lemma_decs_buildable(ws: Seq<WireModel>)
    ensures
        all_buildable(decs(ws)),
    decreases ws,
{
    if ws.len() > 0 {
        lemma_decs_buildable(ws.drop_last());
        lemma_dec_buildable(ws.last());
        let prev = decs(ws.drop_last());
        if prev.len() == ws.len() - 1 && dec(ws.last()) is Some {
            assert(prev.push(dec(ws.last())->Some_0).drop_last() =~= prev);
        }
    }
}

/// The signature that an element carries on the wire.
pub open spec fn wire_sig(w: WireModel) -> Seq<char>
    decreases w,
{
    match w {
        WireModel::Basic(c, _) => seq![c],
        WireModel::Container(c, s, ws) => if c == 'a' {
            seq!['a'] + s
        } else if c == struct_code() {
            seq!['('] + wire_sigs(ws) + seq![')']
        } else if c == dict_entry_code() {
            seq!['{'] + wire_sigs(ws) + seq!['}']
        } else {
            seq![c]
        },
    }
}

/// The signature of a body: its elements' signatures, one after the other.
pub open spec fn wire_sigs(ws: Seq<WireModel>) -> Seq<char>
    decreases ws,
{
    if ws.len() == 0 {
        Seq::empty()
    } else {
        wire_sigs(ws.drop_last()) + wire_sig(ws.last())
    }
}

/// What the marshaller writes for a value carries that value's signature.
pub proof fn lemma_enc_sig(m: ItemModel)
    ensures
        wire_sig(enc(m)) == sig(m),
    decreases m,
{
    match m {
        ItemModel::Struct(items) => {
            lemma_encs_sig(items);
        },
        ItemModel::DictEntry(k, x) => {
            lemma_enc_sig(*k);
            lemma_enc_sig(*x);
            let ws = seq![enc(*k), enc(*x)];
            assert(ws.drop_last() =~= seq![enc(*k)]);
            assert(seq![enc(*k)].drop_last() =~= Seq::<WireModel>::empty());
            assert(wire_sigs(Seq::<WireModel>::empty()) =~= Seq::<char>::empty());
            assert(seq![enc(*k)].last() == enc(*k));
            assert(wire_sigs(seq![enc(*k)]) =~= sig(*k));
            assert(ws.last() == enc(*x));
            assert(wire_sigs(ws) =~= sig(*k) + sig(*x));
        },
        _ => {},
    }
}

/// What the marshaller writes for a sequence of values carries their
/// signatures, one after the other.
pub proof fn lemma_encs_sig(ms: Seq<ItemModel>)
    ensures
        wire_sigs(encs(ms)) == sigs(ms),
    decreases ms,
{
    if ms.len() > 0 {
        lemma_encs_sig(ms.drop_last());
        lemma_enc_sig(ms.last());
        assert(encs(ms).drop_last() =~= encs(ms.drop_last()));
    }
}

/// After values are written to a body, the body's signature is what it was
/// followed by the values' signatures.
pub proof fn lemma_body_signature(b: Seq<WireModel>, ms: Seq<ItemModel>)
    ensures
        wire_sigs(b + encs(ms)) == wire_sigs(b) + sigs(ms),
    decreases ms.len(),
{
    if ms.len() == 0 {
        assert(b + encs(ms) =~= b);
        assert(wire_sigs(b) + sigs(ms) =~= wire_sigs(b));
    } else {
        lemma_body_signature(b, ms.drop_last());
        lemma_enc_sig(ms.last());
        assert((b + encs(ms)).drop_last() =~= b + encs(ms.drop_last()));
        lemma_encs_len(ms);
        assert(wire_sigs(b + encs(ms)) =~= wire_sigs(b) + sigs(ms));
    }
}

/// A body with no elements reads as no values.
pub proof fn lemma_empty_body()
    ensures
        decs(Seq::empty()) == Seq::<ItemModel>::empty(),
{
}

} // verus!

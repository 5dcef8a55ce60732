//! The marshaller: writes values into a message body and reads them back.
//!
//! Reading stops at the first element that cannot be read (an unknown type
//! code, or a payload that does not fit its code); the values before it are
//! kept and the rest of the body reads as empty.
use vstd::prelude::*;
use crate::value::{
    ItemModel, MessageItem, all_buildable, all_have_sig, buildable, is_valid_path, model_of,
    models_of, lemma_all_buildable, lemma_models_of_index_all, lemma_models_of_push,
    lemma_models_of_pushed, lemma_models_of_len,
};
use crate::wire::{
    Payload, WireElem, WireModel, dec, decs, enc, encs, wire_models,
    lemma_wire_models_pushed, lemma_wire_models_len, lemma_wire_models_index, lemma_decs_stuck,
};

verus! {

pub open spec fn opt_model(r: Option<MessageItem>) -> Option<ItemModel> {
    match r {
        Some(x) => Some(model_of(x)),
        None => None,
    }
}

/// Writes one value.
pub fn encode(v: &MessageItem) -> (r: WireElem)
    requires
        buildable(v@),
    ensures
        r@ == enc(v@),
    decreases v,
{
    match v {
        MessageItem::Byte(x) => WireElem::Basic('y', Payload::Unsigned(*x as u64)),
        MessageItem::Bool(x) => WireElem::Basic('b', Payload::Flag(*x)),
        MessageItem::Int16(x) => WireElem::Basic('n', Payload::Signed(*x as i64)),
        MessageItem::UInt16(x) => WireElem::Basic('q', Payload::Unsigned(*x as u64)),
        MessageItem::Int32(x) => WireElem::Basic('i', Payload::Signed(*x as i64)),
        MessageItem::UInt32(x) => WireElem::Basic('u', Payload::Unsigned(*x as u64)),
        MessageItem::Int64(x) => WireElem::Basic('x', Payload::Signed(*x)),
        MessageItem::UInt64(x) => WireElem::Basic('t', Payload::Unsigned(*x)),
        MessageItem::Str(t) => WireElem::Basic('s', Payload::Text(t.clone())),
        MessageItem::ObjectPath(t) => WireElem::Basic('o', Payload::Text(t.clone())),
        MessageItem::Array(items, el) => {
            assert(decreases_to!(*v => *items));
            WireElem::Container('a', el.clone(), encode_vec(items))
        },
        MessageItem::Struct(items) => {
            assert(decreases_to!(*v => *items));
            WireElem::Container('r', String::new(), encode_vec(items))
        },
        MessageItem::DictEntry(k, x) => {
            let ek = encode(k);
            let ex = encode(x);
            let ghost wk = ek;
            let ghost wx = ex;
            let mut ws: Vec<WireElem> = Vec::new();
            ws.push(ek);
            ws.push(ex);
            proof {
                lemma_wire_models_pushed(Seq::empty(), wk);
                assert(seq![wk] =~= Seq::<WireElem>::empty().push(wk));
                lemma_wire_models_pushed(seq![wk], wx);
                assert(ws@ =~= seq![wk].push(wx));
                assert(wire_models(ws@) =~= seq![enc(model_of(**k)), enc(model_of(**x))]);
            }
            WireElem::Container('e', String::new(), ws)
        },
        MessageItem::Variant(x) => {
            let s = x.signature();
            let ex = encode(x);
            let ghost wx = ex;
            let mut ws: Vec<WireElem> = Vec::new();
            ws.push(ex);
            proof {
                lemma_wire_models_pushed(Seq::empty(), wx);
                assert(ws@ =~= Seq::<WireElem>::empty().push(wx));
                assert(wire_models(ws@) =~= seq![enc(model_of(**x))]);
            }
            WireElem::Container('v', s, ws)
        },
    }
}

/// Writes a sequence of values, in order.
fn encode_vec(items: &Vec<MessageItem>) -> (r: Vec<WireElem>)
    requires
        all_buildable(models_of(items@)),
    ensures
        wire_models(r@) == encs(models_of(items@)),
    decreases items,
{
    proof {
        lemma_models_of_index_all(items@);
        lemma_all_buildable(models_of(items@));
        assert forall|j: int| 0 <= j < items@.len() implies #[trigger] buildable(items@[j]@) by {
            assert(models_of(items@)[j] == items@[j]@);
        }
    }
    let mut r: Vec<WireElem> = Vec::new();
    let mut i: usize = 0;
    while i < items.len()
        invariant
            i <= items@.len(),
            forall|j: int| 0 <= j < items@.len() ==> #[trigger] buildable(items@[j]@),
            wire_models(r@) == encs(models_of(items@.take(i as int))),
        decreases items@.len() - i,
    {
        proof {
            assert(decreases_to!(*items => items@[i as int]));
            lemma_models_of_push(items@, i as int);
        }
        let w = encode(&items[i]);
        proof {
            lemma_wire_models_pushed(r@, w);
            let ms = models_of(items@.take(i as int + 1));
            assert(ms.drop_last() == models_of(items@.take(i as int)));
        }
        r.push(w);
        i = i + 1;
    }
    proof {
        assert(items@.take(items@.len() as int) =~= items@);
    }
    r
}

/// Reads one element; `None` where it cannot be read.
pub fn decode(w: &WireElem) -> (r: Option<MessageItem>)
    ensures
        opt_model(r) == dec(w@),
    decreases w,
{
    match w {
        WireElem::Basic(c, p) => match p {
            Payload::Unsigned(u) => {
                let u = *u;
                if *c == 'y' && u <= 0xff {
                    Some(MessageItem::Byte(u as u8))
                } else if *c == 'q' && u <= 0xffff {
                    Some(MessageItem::UInt16(u as u16))
                } else if *c == 'u' && u <= 0xffff_ffff {
                    Some(MessageItem::UInt32(u as u32))
                } else if *c == 't' {
                    Some(MessageItem::UInt64(u))
                } else {
                    None
                }
            },
            Payload::Signed(x) => {
                let x = *x;
                if *c == 'n' && -0x8000 <= x && x <= 0x7fff {
                    Some(MessageItem::Int16(x as i16))
                } else if *c == 'i' && -0x8000_0000 <= x && x <= 0x7fff_ffff {
                    Some(MessageItem::Int32(x as i32))
                } else if *c == 'x' {
                    Some(MessageItem::Int64(x))
                } else {
                    None
                }
            },
            Payload::Flag(b) => if *c == 'b' {
                Some(MessageItem::Bool(*b))
            } else {
                None
            },
            Payload::Text(t) => if *c == 's' {
                Some(MessageItem::Str(t.clone()))
            } else if *c == 'o' && is_valid_path(t.as_str()) {
                Some(MessageItem::ObjectPath(t.clone()))
            } else {
                None
            },
        },
        WireElem::Container(c, s, ws) => {
            assert(decreases_to!(*w => *ws));
            proof {
                lemma_wire_models_len(ws@);
            }
            if *c == 'a' {
                let items = decode_all(ws);
                if all_have_sig(&items, s) {
                    Some(MessageItem::Array(items, s.clone()))
                } else {
                    None
                }
            } else if *c == 'r' {
                Some(MessageItem::Struct(decode_all(ws)))
            } else if *c == 'e' {
                if ws.len() != 2 {
                    return None;
                }
                proof {
                    lemma_wire_models_index(ws@, 0);
                    lemma_wire_models_index(ws@, 1);
                    assert(decreases_to!(*ws => ws@[0]));
                    assert(decreases_to!(*ws => ws@[1]));
                }
                let k = decode(&ws[0]);
                let x = decode(&ws[1]);
                match (k, x) {
                    (Some(k), Some(x)) => match k {
                        MessageItem::Array(..) | MessageItem::Struct(_) | MessageItem::DictEntry(..)
                        | MessageItem::Variant(_) => None,
                        _ => Some(MessageItem::DictEntry(Box::new(k), Box::new(x))),
                    },
                    _ => None,
                }
            } else if *c == 'v' {
                if ws.len() != 1 {
                    return None;
                }
                proof {
                    lemma_wire_models_index(ws@, 0);
                    assert(decreases_to!(*ws => ws@[0]));
                }
                match decode(&ws[0]) {
                    Some(x) => Some(MessageItem::Variant(Box::new(x))),
                    None => None,
                }
            } else {
                None
            }
        },
    }
}

/// Reads a sequence of elements up to the first one that cannot be read.
pub fn decode_all(ws: &Vec<WireElem>) -> (r: Vec<MessageItem>)
    ensures
        models_of(r@) == decs(wire_models(ws@)),
        all_buildable(models_of(r@)),
    decreases ws,
{
    let ghost wms = wire_models(ws@);
    proof {
        lemma_wire_models_len(ws@);
        crate::wire::lemma_decs_buildable(wms);
    }
    assert(all_buildable(decs(wms)));
    let mut r: Vec<MessageItem> = Vec::new();
    let mut i: usize = 0;
    while i < ws.len()
        invariant
            i <= ws@.len(),
            wms == wire_models(ws@),
            wms.len() == ws@.len(),
            all_buildable(decs(wms)),
            r@.len() == i,
            models_of(r@) == decs(wms.take(i as int)),
        decreases ws@.len() - i,
    {
        proof {
            assert(decreases_to!(*ws => ws@[i as int]));
            lemma_wire_models_index(ws@, i as int);
            lemma_models_of_len(r@);
            assert(wms.take(i as int + 1).drop_last() =~= wms.take(i as int));
        }
        match decode(&ws[i]) {
            Some(x) => {
                proof {
                    lemma_models_of_pushed(r@, x);
                }
                r.push(x);
            },
            None => {
                proof {
                    lemma_decs_stuck(wms, i as int + 1, wms.len() as int);
                    assert(wms.take(wms.len() as int) =~= wms);
                }
                return r;
            },
        }
        i = i + 1;
    }
    proof {
        assert(wms.take(wms.len() as int) =~= wms);
    }
    r
}

/// Writes each value of `v`, in order, after what `body` holds.
pub fn append_all(body: &mut Vec<WireElem>, v: &[MessageItem])
    requires
        all_buildable(models_of(v@)),
    ensures
        wire_models(final(body)@) == wire_models(old(body)@) + encs(models_of(v@)),
{
    let ghost start = wire_models(old(body)@);
    proof {
        lemma_models_of_index_all(v@);
        lemma_all_buildable(models_of(v@));
        assert forall|j: int| 0 <= j < v@.len() implies #[trigger] buildable(v@[j]@) by {
            assert(models_of(v@)[j] == v@[j]@);
        }
    }
    let mut i: usize = 0;
    while i < v.len()
        invariant
            i <= v@.len(),
            forall|j: int| 0 <= j < v@.len() ==> #[trigger] buildable(v@[j]@),
            wire_models(body@) == start + encs(models_of(v@.take(i as int))),
        decreases v@.len() - i,
    {
        proof {
            lemma_models_of_push(v@, i as int);
        }
        let w = encode(&v[i]);
        proof {
            lemma_wire_models_pushed(body@, w);
            let ms = models_of(v@.take(i as int + 1));
            assert(ms.drop_last() == models_of(v@.take(i as int)));
            assert(start + encs(ms) =~= (start + encs(models_of(v@.take(i as int)))).push(w@));
        }
        body.push(w);
        i = i + 1;
    }
    proof {
        assert(v@.take(v@.len() as int) =~= v@);
    }
}

/// Values written after a body that reads back whole are read back after
/// what that body holds.
pub proof fn lemma_read_after_append(b: Seq<WireModel>, ms: Seq<ItemModel>)
    requires
        decs(b).len() == b.len(),
        all_buildable(ms),
    ensures
        decs(b + encs(ms)) == decs(b) + ms,
    decreases ms.len(),
{
    if ms.len() == 0 {
        assert(b + encs(ms) =~= b);
        assert(decs(b) + ms =~= decs(b));
    } else {
        crate::wire::lemma_encs_len(ms);
        crate::wire::lemma_encs_len(ms.drop_last());
        lemma_read_after_append(b, ms.drop_last());
        crate::wire::lemma_round_trip(ms.last());
        assert((b + encs(ms)).drop_last() =~= b + encs(ms.drop_last()));
        assert(decs(b + encs(ms)) =~= decs(b) + ms);
    }
}

} // verus!

//! D-Bus values and their type signatures.
use vstd::prelude::*;
use vstd::string::*;
use crate::error::{Error, invalid_args_name};

verus! {

/// Any D-Bus datum.
#[derive(Debug, PartialEq)]
pub enum MessageItem {
    Byte(u8),
    Bool(bool),
    Int16(i16),
    UInt16(u16),
    Int32(i32),
    UInt32(u32),
    Int64(i64),
    UInt64(u64),
    Str(String),
    ObjectPath(String),
    /// Elements and the signature that every element has.
    Array(Vec<MessageItem>, String),
    Struct(Vec<MessageItem>),
    DictEntry(Box<MessageItem>, Box<MessageItem>),
    Variant(Box<MessageItem>),
}

/// The mathematical model of a `MessageItem`: texts as character sequences,
/// children as sequences of models.
pub ghost enum ItemModel {
    Byte(u8),
    Bool(bool),
    Int16(i16),
    UInt16(u16),
    Int32(i32),
    UInt32(u32),
    Int64(i64),
    UInt64(u64),
    Str(Seq<char>),
    ObjectPath(Seq<char>),
    Array(Seq<ItemModel>, Seq<char>),
    Struct(Seq<ItemModel>),
    DictEntry(Box<ItemModel>, Box<ItemModel>),
    Variant(Box<ItemModel>),
}

pub open spec fn model_of(v: MessageItem) -> ItemModel
    decreases v,
{
    match v {
        MessageItem::Byte(x) => ItemModel::Byte(x),
        MessageItem::Bool(x) => ItemModel::Bool(x),
        MessageItem::Int16(x) => ItemModel::Int16(x),
        MessageItem::UInt16(x) => ItemModel::UInt16(x),
        MessageItem::Int32(x) => ItemModel::Int32(x),
        MessageItem::UInt32(x) => ItemModel::UInt32(x),
        MessageItem::Int64(x) => ItemModel::Int64(x),
        MessageItem::UInt64(x) => ItemModel::UInt64(x),
        MessageItem::Str(s) => ItemModel::Str(s@),
        MessageItem::ObjectPath(s) => ItemModel::ObjectPath(s@),
        MessageItem::Array(items, sig) => ItemModel::Array(models_of(items@), sig@),
        MessageItem::Struct(items) => ItemModel::Struct(models_of(items@)),
        MessageItem::DictEntry(k, x) => ItemModel::DictEntry(
            Box::new(model_of(*k)),
            Box::new(model_of(*x)),
        ),
        MessageItem::Variant(x) => ItemModel::Variant(Box::new(model_of(*x))),
    }
}

pub open spec fn models_of(s: Seq<MessageItem>) -> Seq<ItemModel>
    decreases s,
{
    if s.len() == 0 {
        Seq::empty()
    } else {
        models_of(s.drop_last()).push(model_of(s.last()))
    }
}

impl View for MessageItem {
    type V = ItemModel;

    open spec fn view(&self) -> ItemModel {
        model_of(*self)
    }
}

/// The one-character signature of each basic type.
pub open spec fn basic_code(m: ItemModel) -> char {
    match m {
        ItemModel::Byte(_) => 'y',
        ItemModel::Bool(_) => 'b',
        ItemModel::Int16(_) => 'n',
        ItemModel::UInt16(_) => 'q',
        ItemModel::Int32(_) => 'i',
        ItemModel::UInt32(_) => 'u',
        ItemModel::Int64(_) => 'x',
        ItemModel::UInt64(_) => 't',
        ItemModel::Str(_) => 's',
        ItemModel::ObjectPath(_) => 'o',
        ItemModel::Array(..) => 'a',
        ItemModel::Struct(_) => '(',
        ItemModel::DictEntry(..) => '{',
        ItemModel::Variant(_) => 'v',
    }
}

pub open spec fn is_container(m: ItemModel) -> bool {
    m is Array || m is Struct || m is DictEntry || m is Variant
}

/// The type signature of a value. A variant's own signature is `v`: the
/// signature of what it holds travels with the held value, not in here.
pub open spec fn sig(m: ItemModel) -> Seq<char>
    decreases m,
{
    match m {
        ItemModel::Array(_, el) => seq!['a'] + el,
        ItemModel::Struct(items) => seq!['('] + sigs(items) + seq![')'],
        ItemModel::DictEntry(k, x) => seq!['{'] + sig(*k) + sig(*x) + seq!['}'],
        _ => seq![basic_code(m)],
    }
}

/// The signatures of a sequence of values, one after the other.
pub open spec fn sigs(s: Seq<ItemModel>) -> Seq<char>
    decreases s,
{
    if s.len() == 0 {
        Seq::empty()
    } else {
        sigs(s.drop_last()) + sig(s.last())
    }
}

pub proof fn lemma_models_of_push(s: Seq<MessageItem>, i: int)
    requires
        0 <= i < s.len(),
    ensures
        models_of(s.take(i + 1)) == models_of(s.take(i)).push(model_of(s[i])),
        models_of(s.take(i)).len() == i,
{
    assert(s.take(i + 1).drop_last() =~= s.take(i));
    lemma_models_of_len(s.take(i));
}

pub proof fn lemma_models_of_pushed(s: Seq<MessageItem>, x: MessageItem)
    ensures
        models_of(s.push(x)) == models_of(s).push(model_of(x)),
{
    assert(s.push(x).drop_last() =~= s);
}

pub proof fn lemma_models_of_len(s: Seq<MessageItem>)
    ensures
        models_of(s).len() == s.len(),
    decreases s.len(),
{
    if s.len() > 0 {
        lemma_models_of_len(s.drop_last());
    }
}

pub proof fn lemma_models_of_index(s: Seq<MessageItem>, i: int)
    requires
        0 <= i < s.len(),
    ensures
        models_of(s)[i] == model_of(s[i]),
    decreases s.len(),
{
    lemma_models_of_len(s.drop_last());
    if i < s.len() - 1 {
        lemma_models_of_index(s.drop_last(), i);
    }
}

impl MessageItem {
    /// The type signature of this value, as the marshaller writes it.
    pub fn signature(&self) -> (r: String)
        ensures
            r@ == sig(self@),
        decreases self,
    {
        match self {
            MessageItem::Array(_, el) => {
                let mut r = String::from_str("a");
                proof { reveal_strlit("a"); }
                r.append(el.as_str());
                r
            },
            MessageItem::Struct(items) => {
                let mut r = String::from_str("(");
                proof { reveal_strlit("("); }
                let mut i: usize = 0;
                while i < items.len()
                    invariant
                        i <= items@.len(),
                        decreases_to!(*self => *items),
                        r@ == seq!['('] + sigs(models_of(items@.take(i as int))),
                    decreases items@.len() - i,
                {
                    proof {
                        lemma_models_of_push(items@, i as int);
                        assert(decreases_to!(*items => items@[i as int]));
                        assert(decreases_to!(*self => items@[i as int]));

                    }
                    let s = items[i].signature();
                    r.append(s.as_str());
                    proof {
                        let ms = models_of(items@.take(i as int + 1));
                        assert(ms.drop_last() == models_of(items@.take(i as int)));
                        assert(r@ =~= seq!['('] + sigs(ms));
                    }
                    i = i + 1;
                }
                proof {
                    assert(items@.take(items@.len() as int) =~= items@);
                }
                r.append(")");
                proof { reveal_strlit(")"); }
                r
            },
            MessageItem::DictEntry(k, x) => {
                let mut r = String::from_str("{");
                proof { reveal_strlit("{"); }
                let ks = k.signature();
                let xs = x.signature();
                r.append(ks.as_str());
                r.append(xs.as_str());
                r.append("}");
                proof { reveal_strlit("}"); }
                r
            },
            MessageItem::Byte(_) => { proof { reveal_strlit("y"); } String::from_str("y") },
            MessageItem::Bool(_) => { proof { reveal_strlit("b"); } String::from_str("b") },
            MessageItem::Int16(_) => { proof { reveal_strlit("n"); } String::from_str("n") },
            MessageItem::UInt16(_) => { proof { reveal_strlit("q"); } String::from_str("q") },
            MessageItem::Int32(_) => { proof { reveal_strlit("i"); } String::from_str("i") },
            MessageItem::UInt32(_) => { proof { reveal_strlit("u"); } String::from_str("u") },
            MessageItem::Int64(_) => { proof { reveal_strlit("x"); } String::from_str("x") },
            MessageItem::UInt64(_) => { proof { reveal_strlit("t"); } String::from_str("t") },
            MessageItem::Str(_) => { proof { reveal_strlit("s"); } String::from_str("s") },
            MessageItem::ObjectPath(_) => { proof { reveal_strlit("o"); } String::from_str("o") },
            MessageItem::Variant(_) => { proof { reveal_strlit("v"); } String::from_str("v") },
        }
    }
}

/// A character that may stand in an element of an object path.
pub open spec fn path_char(c: char) -> bool {
    ('A' <= c <= 'Z') || ('a' <= c <= 'z') || ('0' <= c <= '9') || c == '_'
}

/// A syntactically valid object path: `/`, or `/` followed by non-empty
/// elements of `[A-Za-z0-9_]` separated by single slashes.
pub open spec fn valid_path(p: Seq<char>) -> bool {
    &&& p.len() >= 1
    &&& p[0] == '/'
    &&& (p.len() == 1 || p.last() != '/')
    &&& forall|i: int| 0 <= i < p.len() ==> (p[i] == '/' || path_char(p[i]))
    &&& forall|i: int| 0 <= i < p.len() - 1 ==> !(#[trigger] p[i] == '/' && p[i + 1] == '/')
}

fn is_path_char(c: char) -> (r: bool)
    ensures
        r == path_char(c),
{
    ('A' <= c && c <= 'Z') || ('a' <= c && c <= 'z') || ('0' <= c && c <= '9') || c == '_'
}

pub fn is_valid_path(p: &str) -> (r: bool)
    ensures
        r == valid_path(p@),
{
    let n = p.unicode_len();
    if n == 0 || p.get_char(0) != '/' {
        return false;
    }
    if n > 1 && p.get_char(n - 1) == '/' {
        return false;
    }
    let mut i: usize = 0;
    while i < n
        invariant
            n == p@.len(),
            i <= n,
            forall|j: int| 0 <= j < i ==> (p@[j] == '/' || path_char(p@[j])),
            forall|j: int| 0 <= j < i && j < n - 1 ==> !(#[trigger] p@[j] == '/' && p@[j + 1] == '/'),
        decreases n - i,
    {
        let c = p.get_char(i);
        if c != '/' && !is_path_char(c) {
            return false;
        }
        if c == '/' && i + 1 < n && p.get_char(i + 1) == '/' {
            return false;
        }
        i = i + 1;
    }
    true
}

/// A value that the checked constructors can build: every object path is
/// valid, every dictionary key is a basic value, and every array element has
/// the array's element signature, at any depth.
pub open spec fn buildable(m: ItemModel) -> bool
    decreases m,
{
    match m {
        ItemModel::ObjectPath(p) => valid_path(p),
        ItemModel::Array(items, el) => all_buildable(items) && all_of_sig(items, el),
        ItemModel::Struct(items) => all_buildable(items),
        ItemModel::DictEntry(k, x) => !is_container(*k) && buildable(*k) && buildable(*x),
        ItemModel::Variant(x) => buildable(*x),
        _ => true,
    }
}

pub open spec fn all_buildable(s: Seq<ItemModel>) -> bool
    decreases s,
{
    if s.len() == 0 {
        true
    } else {
        all_buildable(s.drop_last()) && buildable(s.last())
    }
}

/// Every value of `s` has the signature `el`.
pub open spec fn all_of_sig(s: Seq<ItemModel>, el: Seq<char>) -> bool {
    forall|i: int| 0 <= i < s.len() ==> #[trigger] sig(s[i]) == el
}

pub proof fn lemma_all_buildable(s: Seq<ItemModel>)
    ensures
        all_buildable(s) == (forall|i: int| 0 <= i < s.len() ==> #[trigger] buildable(s[i])),
    decreases s.len(),
{
    if s.len() > 0 {
        lemma_all_buildable(s.drop_last());
        if forall|i: int| 0 <= i < s.len() ==> #[trigger] buildable(s[i]) {
            assert forall|i: int| 0 <= i < s.drop_last().len() implies #[trigger] buildable(s.drop_last()[i]) by {
                assert(s.drop_last()[i] == s[i]);
            }
            assert(buildable(s[s.len() - 1]));
        }
        if all_buildable(s) {
            assert forall|i: int| 0 <= i < s.len() implies #[trigger] buildable(s[i]) by {
                if i < s.len() - 1 {
                    assert(s.drop_last()[i] == s[i]);
                }
            }
        }
    }
}

pub proof fn lemma_models_of_index_all(s: Seq<MessageItem>)
    ensures
        models_of(s).len() == s.len(),
        forall|i: int| 0 <= i < s.len() ==> #[trigger] models_of(s)[i] == model_of(s[i]),
{
    lemma_models_of_len(s);
    assert forall|i: int| 0 <= i < s.len() implies #[trigger] models_of(s)[i] == model_of(s[i]) by {
        lemma_models_of_index(s, i);
    }
}

/// Whether every value of `items` can be built, each with the element
/// signature `el` where `el` is given.
fn items_buildable(items: &Vec<MessageItem>, el: Option<&String>) -> (r: bool)
    ensures
        r == (forall|i: int| 0 <= i < items@.len() ==> buildable(#[trigger] items@[i]@)
            && (el is Some ==> sig(items@[i]@) == el->Some_0@)),
    decreases items,
{
    let mut i: usize = 0;
    while i < items.len()
        invariant
            i <= items@.len(),
            forall|j: int| 0 <= j < i ==> buildable(#[trigger] items@[j]@)
                && (el is Some ==> sig(items@[j]@) == el->Some_0@),
        decreases items@.len() - i,
    {
        proof {
            assert(decreases_to!(*items => items@[i as int]));
        }
        if !items[i].is_buildable() {
            return false;
        }
        match el {
            Some(e) => {
                let s = items[i].signature();
                if s != *e {
                    return false;
                }
            },
            None => {},
        }
        i = i + 1;
    }
    true
}

/// Whether every value of `items` has the signature `el`.
pub fn all_have_sig(items: &Vec<MessageItem>, el: &String) -> (r: bool)
    ensures
        r == all_of_sig(models_of(items@), el@),
{
    proof {
        lemma_models_of_index_all(items@);
    }
    let mut i: usize = 0;
    while i < items.len()
        invariant
            i <= items@.len(),
            models_of(items@).len() == items@.len(),
            forall|j: int| 0 <= j < items@.len() ==> #[trigger] models_of(items@)[j] == model_of(items@[j]),
            forall|j: int| 0 <= j < i ==> #[trigger] sig(models_of(items@)[j]) == el@,
        decreases items@.len() - i,
    {
        let s = items[i].signature();
        if s != *el {
            assert(sig(models_of(items@)[i as int]) != el@);
            return false;
        }
        i = i + 1;
    }
    true
}

/// Whether every value of `v` can be built.
pub fn all_items_buildable(v: &[MessageItem]) -> (r: bool)
    ensures
        r == all_buildable(models_of(v@)),
{
    proof {
        lemma_models_of_index_all(v@);
        lemma_all_buildable(models_of(v@));
    }
    let mut i: usize = 0;
    while i < v.len()
        invariant
            i <= v@.len(),
            models_of(v@).len() == v@.len(),
            forall|j: int| 0 <= j < v@.len() ==> #[trigger] models_of(v@)[j] == model_of(v@[j]),
            forall|j: int| 0 <= j < i ==> buildable(#[trigger] models_of(v@)[j]),
        decreases v@.len() - i,
    {
        if !v[i].is_buildable() {
            proof {
                let ms = models_of(v@);
                assert(!buildable(ms[i as int]));
                lemma_all_buildable(ms);
                assert(!all_buildable(ms));
            }
            return false;
        }
        i = i + 1;
    }
    true
}

impl MessageItem {
    /// Whether the checked constructors can build this value.
    pub fn is_buildable(&self) -> (r: bool)
        ensures
            r == buildable(self@),
        decreases self,
    {
        match self {
            MessageItem::ObjectPath(p) => {
                let r = is_valid_path(p.as_str());
                assert(r == buildable(self@));
                r
            },
            MessageItem::Array(items, el) => {
                assert(decreases_to!(*self => *items));
                proof {
                    lemma_models_of_index_all(items@);
                }
                let r = items_buildable(items, Some(el));
                proof {
                    let ms = models_of(items@);
                    lemma_all_buildable(ms);
                    assert(self@ == ItemModel::Array(ms, el@));
                    if r {
                        assert forall|i: int| 0 <= i < ms.len() implies buildable(ms[i]) && sig(ms[i]) == el@ by {
                            assert(ms[i] == items@[i]@);
                        }
                        assert(buildable(self@));
                    } else {
                        if buildable(self@) {
                            assert forall|i: int| 0 <= i < items@.len() implies buildable(items@[i]@) && sig(items@[i]@) == el@ by {
                                assert(ms[i] == items@[i]@);
                            }
                        }
                    }
                }
                r
            },
            MessageItem::Struct(items) => {
                assert(decreases_to!(*self => *items));
                proof {
                    lemma_models_of_index_all(items@);
                }
                let r = items_buildable(items, None);
                proof {
                    let ms = models_of(items@);
                    lemma_all_buildable(ms);
                    assert(self@ == ItemModel::Struct(ms));
                    if r {
                        assert forall|i: int| 0 <= i < ms.len() implies buildable(ms[i]) by {
                            assert(ms[i] == items@[i]@);
                        }
                        assert(buildable(self@));
                    } else {
                        if buildable(self@) {
                            assert forall|i: int| 0 <= i < items@.len() implies buildable(items@[i]@) by {
                                assert(ms[i] == items@[i]@);
                            }
                        }
                    }
                }
                r
            },
            MessageItem::DictEntry(k, x) => {
                let key_ok = match &**k {
                    MessageItem::Array(..) | MessageItem::Struct(_) | MessageItem::DictEntry(..)
                    | MessageItem::Variant(_) => false,
                    _ => true,
                };
                let r = key_ok && k.is_buildable() && x.is_buildable();
                assert(key_ok == !is_container(model_of(**k)));
                assert(r == buildable(self@));
                r
            },
            MessageItem::Variant(x) => {
                let r = x.is_buildable();
                assert(r == buildable(self@));
                r
            },
            _ => {
                assert(buildable(self@));
                true
            },
        }
    }

    /// An object path value; fails with an invalid-argument error where `p`
    /// is not a valid object path.
    pub fn object_path(p: &str) -> (r: Result<MessageItem, Error>)
        ensures
            valid_path(p@) ==> r is Ok && r->Ok_0@ == ItemModel::ObjectPath(p@) && buildable(r->Ok_0@),
            !valid_path(p@) ==> r is Err && r->Err_0.name@ == invalid_args_name(),
    {
        if is_valid_path(p) {
            Ok(MessageItem::ObjectPath(String::from_str(p)))
        } else {
            Err(Error::invalid_argument("not a valid object path"))
        }
    }

    /// A dictionary entry; fails with an invalid-argument error where the key
    /// is a container, or where the key or the value could not be built.
    pub fn dict_entry(key: MessageItem, value: MessageItem) -> (r: Result<MessageItem, Error>)
        ensures
            r is Ok <==> buildable(ItemModel::DictEntry(Box::new(key@), Box::new(value@))),
            r is Ok ==> r->Ok_0@ == ItemModel::DictEntry(Box::new(key@), Box::new(value@)),
            r is Err ==> r->Err_0.name@ == invalid_args_name(),
    {
        let v = MessageItem::DictEntry(Box::new(key), Box::new(value));
        if v.is_buildable() {
            Ok(v)
        } else {
            Err(Error::invalid_argument("a dictionary key must be a basic value"))
        }
    }

    /// An array of elements that all have the signature `el`; fails with an
    /// invalid-argument error where one of them has another, or could not be
    /// built.
    pub fn array(items: Vec<MessageItem>, el: &str) -> (r: Result<MessageItem, Error>)
        ensures
            r is Ok <==> buildable(ItemModel::Array(models_of(items@), el@)),
            r is Ok ==> r->Ok_0@ == ItemModel::Array(models_of(items@), el@),
            r is Err ==> r->Err_0.name@ == invalid_args_name(),
    {
        let v = MessageItem::Array(items, String::from_str(el));
        if v.is_buildable() {
            Ok(v)
        } else {
            Err(Error::invalid_argument("array elements differ from the element signature"))
        }
    }
}

} // verus!

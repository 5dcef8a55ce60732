use dbus::marshal::{append_all, decode, decode_all, encode};
use dbus::message::{Message, MethodCall};
use dbus::value::MessageItem;
use dbus::wire::{Payload, WireElem};

fn s(t: &str) -> String {
    t.to_string()
}

fn sample() -> Vec<MessageItem> {
    let entry = MessageItem::dict_entry(
        MessageItem::Str(s("volume")),
        MessageItem::Variant(Box::new(MessageItem::UInt32(70))),
    )
    .unwrap();
    vec![
        MessageItem::Byte(255),
        MessageItem::Bool(true),
        MessageItem::Int16(-32768),
        MessageItem::UInt16(65535),
        MessageItem::Int32(-7),
        MessageItem::UInt32(4_000_000_000),
        MessageItem::Int64(i64::MIN),
        MessageItem::UInt64(u64::MAX),
        MessageItem::Str(s("hello")),
        MessageItem::ObjectPath(s("/org/example")),
        MessageItem::Array(vec![entry], s("{sv}")),
        MessageItem::Struct(vec![
            MessageItem::Int32(1),
            MessageItem::Array(vec![], s("s")),
            MessageItem::Variant(Box::new(MessageItem::Struct(vec![MessageItem::Bool(false)]))),
        ]),
    ]
}

#[test]
fn round_trip_through_a_message() {
    let mut m = MethodCall::new("org.example", "/org/example", "org.example.Iface", "Set");
    m.append_items(&sample()).unwrap();
    assert_eq!(m.get_items(), sample());
}

#[test]
fn round_trip_each_value() {
    for v in sample() {
        let w = encode(&v);
        assert_eq!(decode(&w), Some(v));
    }
}

#[test]
fn append_keeps_earlier_values() {
    let mut m = MethodCall::new("", "/", "", "Set");
    m.append_items(&[MessageItem::Int32(1)]).unwrap();
    m.append_items(&[MessageItem::Str(s("two"))]).unwrap();
    assert_eq!(m.get_items(), vec![MessageItem::Int32(1), MessageItem::Str(s("two"))]);
}

#[test]
fn empty_body_reads_as_no_values() {
    let m = MethodCall::new("", "/", "", "Ping");
    assert_eq!(m.get_items(), vec![]);
    assert_eq!(decode_all(&vec![]), vec![]);
}

#[test]
fn signatures() {
    let v = sample();
    let expected = ["y", "b", "n", "q", "i", "u", "x", "t", "s", "o", "a{sv}", "(iasv)"];
    for (x, e) in v.iter().zip(expected.iter()) {
        assert_eq!(x.signature(), e.to_string());
        assert_eq!(x.signature(), x.signature());
    }
    let d = MessageItem::dict_entry(MessageItem::Byte(1), MessageItem::Str(s("a"))).unwrap();
    assert_eq!(d.signature(), "{ys}");
    assert_eq!(MessageItem::Variant(Box::new(MessageItem::Int64(3))).signature(), "v");
}

#[test]
fn signature_survives_round_trip() {
    for v in sample() {
        let back = decode(&encode(&v)).unwrap();
        assert_eq!(back.signature(), v.signature());
    }
}

#[test]
fn encoding_of_basic_values() {
    assert_eq!(encode(&MessageItem::Int16(-2)), WireElem::Basic('n', Payload::Signed(-2)));
    assert_eq!(encode(&MessageItem::Byte(7)), WireElem::Basic('y', Payload::Unsigned(7)));
    assert_eq!(encode(&MessageItem::Str(s("a"))), WireElem::Basic('s', Payload::Text(s("a"))));
}

#[test]
fn variant_carries_inner_signature() {
    let v = MessageItem::Variant(Box::new(MessageItem::Array(vec![MessageItem::Int32(5)], s("i"))));
    match encode(&v) {
        WireElem::Container(c, sig, inner) => {
            assert_eq!(c, 'v');
            assert_eq!(sig, "ai");
            assert_eq!(inner.len(), 1);
        }
        _ => panic!("a variant is written as a container"),
    }
}

#[test]
fn struct_and_dict_entry_containers() {
    match encode(&MessageItem::Struct(vec![MessageItem::Bool(true)])) {
        WireElem::Container(c, sig, inner) => {
            assert_eq!(c, 'r');
            assert_eq!(sig, "");
            assert_eq!(inner, vec![WireElem::Basic('b', Payload::Flag(true))]);
        }
        _ => panic!("a struct is written as a container"),
    }
    let d = MessageItem::dict_entry(MessageItem::Byte(1), MessageItem::Byte(2)).unwrap();
    match encode(&d) {
        WireElem::Container(c, _, inner) => {
            assert_eq!(c, 'e');
            assert_eq!(inner.len(), 2);
        }
        _ => panic!("a dictionary entry is written as a container"),
    }
}

#[test]
fn reading_stops_at_unknown_type_code() {
    let body = vec![
        WireElem::Basic('y', Payload::Unsigned(3)),
        WireElem::Basic('?', Payload::Unsigned(4)),
        WireElem::Basic('b', Payload::Flag(true)),
    ];
    assert_eq!(decode_all(&body), vec![MessageItem::Byte(3)]);
}

#[test]
fn reading_stops_at_payload_out_of_range() {
    let body = vec![
        WireElem::Basic('n', Payload::Signed(40000)),
        WireElem::Basic('b', Payload::Flag(true)),
    ];
    assert_eq!(decode_all(&body), vec![]);
    assert_eq!(decode(&WireElem::Basic('y', Payload::Unsigned(256))), None);
    assert_eq!(decode(&WireElem::Basic('s', Payload::Flag(true))), None);
}

#[test]
fn malformed_containers_do_not_read() {
    let lonely = WireElem::Container('e', s(""), vec![WireElem::Basic('y', Payload::Unsigned(1))]);
    assert_eq!(decode(&lonely), None);
    let empty_variant = WireElem::Container('v', s("i"), vec![]);
    assert_eq!(decode(&empty_variant), None);
    let unknown = WireElem::Container('z', s(""), vec![]);
    assert_eq!(decode(&unknown), None);
}

#[test]
fn append_all_writes_in_order() {
    let mut body = vec![WireElem::Basic('b', Payload::Flag(false))];
    append_all(&mut body, &[MessageItem::UInt64(9), MessageItem::Bool(true)]);
    assert_eq!(
        body,
        vec![
            WireElem::Basic('b', Payload::Flag(false)),
            WireElem::Basic('t', Payload::Unsigned(9)),
            WireElem::Basic('b', Payload::Flag(true)),
        ]
    );
}

#[test]
fn object_path_validation() {
    let e = MessageItem::object_path("not-a-path").unwrap_err();
    assert!(e.is_invalid_argument());
    assert_eq!(e.name(), "org.freedesktop.DBus.Error.InvalidArgs");
    assert!(MessageItem::object_path("/a/").is_err());
    assert!(MessageItem::object_path("/a//b").is_err());
    assert!(MessageItem::object_path("").is_err());
    assert!(MessageItem::object_path("/a-b").is_err());
    assert_eq!(MessageItem::object_path("/").unwrap(), MessageItem::ObjectPath(s("/")));
    assert_eq!(
        MessageItem::object_path("/org/freedesktop/DBus").unwrap(),
        MessageItem::ObjectPath(s("/org/freedesktop/DBus"))
    );
}

#[test]
fn dict_entry_rejects_container_key() {
    let key = MessageItem::Array(vec![MessageItem::Int32(1)], s("i"));
    let e = MessageItem::dict_entry(key, MessageItem::Int32(2)).unwrap_err();
    assert!(e.is_invalid_argument());
    assert!(MessageItem::dict_entry(MessageItem::Variant(Box::new(MessageItem::Byte(1))), MessageItem::Byte(2)).is_err());
    assert!(MessageItem::dict_entry(MessageItem::ObjectPath(s("/a")), MessageItem::Byte(2)).is_ok());
}

#[test]
fn array_checks_element_signatures() {
    let ok = MessageItem::array(vec![MessageItem::Int32(1), MessageItem::Int32(2)], "i").unwrap();
    assert_eq!(ok, MessageItem::Array(vec![MessageItem::Int32(1), MessageItem::Int32(2)], s("i")));
    let e = MessageItem::array(vec![MessageItem::Int32(1), MessageItem::Byte(2)], "i").unwrap_err();
    assert!(e.is_invalid_argument());
    assert!(MessageItem::array(vec![], "s").is_ok());
}

#[test]
fn append_rejects_invalid_object_path() {
    let mut m = MethodCall::new("org.example", "/", "", "M");
    m.append_items(&[MessageItem::Byte(1)]).unwrap();
    let e = m.append_items(&[MessageItem::ObjectPath(s("not-a-path"))]).unwrap_err();
    assert!(e.is_invalid_argument());
    let nested = MessageItem::Struct(vec![MessageItem::Int32(1), MessageItem::ObjectPath(s("not-a-path"))]);
    assert!(m.append_items(&[nested]).is_err());
    assert_eq!(m.get_items(), vec![MessageItem::Byte(1)]);
    assert_eq!(m.body.len(), 1);
}

#[test]
fn append_rejects_container_key_and_bad_array() {
    let mut m = MethodCall::new("org.example", "/", "", "M");
    let bad_key = MessageItem::DictEntry(
        Box::new(MessageItem::Array(vec![MessageItem::Int32(1)], s("i"))),
        Box::new(MessageItem::Str(s("x"))),
    );
    assert!(m.append_items(&[bad_key]).unwrap_err().is_invalid_argument());
    let mixed = MessageItem::Array(vec![MessageItem::Int32(1), MessageItem::Byte(2)], s("i"));
    assert!(m.append_items(&[mixed]).is_err());
    assert!(m.body.is_empty());
    assert_eq!(m.destination, "org.example");
    assert_eq!(m.member, "M");
}

#[test]
fn is_buildable_checks_every_depth() {
    assert!(MessageItem::Variant(Box::new(MessageItem::ObjectPath(s("/a/b")))).is_buildable());
    assert!(!MessageItem::Variant(Box::new(MessageItem::ObjectPath(s("a")))).is_buildable());
    assert!(!MessageItem::Array(vec![MessageItem::Struct(vec![MessageItem::ObjectPath(s("//"))])], s("(o)")).is_buildable());
    assert!(MessageItem::Array(vec![MessageItem::Struct(vec![MessageItem::ObjectPath(s("/x"))])], s("(o)")).is_buildable());
}

#[test]
fn reading_rejects_unbuildable_values() {
    assert_eq!(decode(&WireElem::Basic('o', Payload::Text(s("not-a-path")))), None);
    assert_eq!(decode(&WireElem::Basic('o', Payload::Text(s("/ok")))), Some(MessageItem::ObjectPath(s("/ok"))));
    let container_key = WireElem::Container(
        'e',
        s(""),
        vec![
            WireElem::Container('a', s("i"), vec![WireElem::Basic('i', Payload::Signed(1))]),
            WireElem::Basic('s', Payload::Text(s("x"))),
        ],
    );
    assert_eq!(decode(&container_key), None);
    let mixed = WireElem::Container(
        'a',
        s("i"),
        vec![WireElem::Basic('i', Payload::Signed(1)), WireElem::Basic('y', Payload::Unsigned(2))],
    );
    assert_eq!(decode(&mixed), None);
    let body = vec![
        WireElem::Basic('u', Payload::Unsigned(1)),
        WireElem::Basic('o', Payload::Text(s("not-a-path"))),
        WireElem::Basic('u', Payload::Unsigned(2)),
    ];
    assert_eq!(decode_all(&body), vec![MessageItem::UInt32(1)]);
}

#[test]
fn constructors_check_children() {
    let bad = MessageItem::ObjectPath(s("nope"));
    assert!(MessageItem::dict_entry(MessageItem::Byte(1), bad).is_err());
    assert!(MessageItem::array(vec![MessageItem::ObjectPath(s("nope"))], "o").is_err());
    assert!(MessageItem::array(vec![MessageItem::ObjectPath(s("/yes"))], "o").is_ok());
}

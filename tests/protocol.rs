use dbus::bus::{DBusBusType, DBusMessageType, DBusNameFlag};
use dbus::connection::{Connection, Reply};
use dbus::error::Error;
use dbus::marshal::encode;
use dbus::message::{Message, MethodCall};
use dbus::value::MessageItem;

fn open() -> Connection {
    Connection::new(Ok(())).unwrap()
}

#[test]
fn new_opens_the_session_bus() {
    let c = open();
    assert_eq!(c.bus, DBusBusType::Session);
    assert!(!c.exit_on_disconnect);
    let c = Connection::new_for_type(DBusBusType::System, Ok(())).unwrap();
    assert_eq!(c.bus, DBusBusType::System);
}

#[test]
fn open_failure_is_returned() {
    let e = Error::new("org.freedesktop.DBus.Error.NoServer", "no bus");
    let r = Connection::new(Err(e.clone()));
    assert_eq!(r.unwrap_err(), e);
}

#[test]
fn ping_returns_empty_method_return() {
    let c = open();
    let call = c.method_call("org.freedesktop.DBus", "/", "org.freedesktop.DBus.Peer", "Ping", &[]).unwrap();
    assert_eq!(call.destination, "org.freedesktop.DBus");
    assert_eq!(call.path, "/");
    assert_eq!(call.interface, "org.freedesktop.DBus.Peer");
    assert_eq!(call.member, "Ping");
    assert!(call.get_items().is_empty());
    let reply = Reply { msg_type: DBusMessageType::MethodReturn, reply_serial: 5, error_name: String::new(), body: vec![] };
    let ret = c.finish_call(Ok(reply)).unwrap();
    assert_eq!(ret.reply_serial, 5);
    assert_eq!(ret.get_items(), vec![]);
}

#[test]
fn method_return_keeps_values() {
    let c = open();
    let body = vec![encode(&MessageItem::Str("x".to_string())), encode(&MessageItem::UInt32(3))];
    let reply = Reply { msg_type: DBusMessageType::MethodReturn, reply_serial: 1, error_name: String::new(), body };
    let ret = c.finish_call(Ok(reply)).unwrap();
    assert_eq!(ret.get_items(), vec![MessageItem::Str("x".to_string()), MessageItem::UInt32(3)]);
}

#[test]
fn error_reply_becomes_error() {
    let c = open();
    let body = vec![encode(&MessageItem::Str("it broke".to_string()))];
    let reply = Reply {
        msg_type: DBusMessageType::Error,
        reply_serial: 2,
        error_name: "org.example.Error.Broken".to_string(),
        body,
    };
    let e = c.finish_call(Ok(reply)).unwrap_err();
    assert!(e.is_set());
    assert_eq!(e.name(), "org.example.Error.Broken");
    assert_eq!(e.message(), "it broke");
}

#[test]
fn error_reply_without_text_has_empty_message() {
    let c = open();
    let reply = Reply {
        msg_type: DBusMessageType::Error,
        reply_serial: 2,
        error_name: "org.example.Error.Quiet".to_string(),
        body: vec![encode(&MessageItem::Int32(1))],
    };
    let e = c.finish_call(Ok(reply)).unwrap_err();
    assert_eq!(e.message(), "");
}

#[test]
fn send_failure_is_returned() {
    let c = open();
    let e = Error::new("org.freedesktop.DBus.Error.NoReply", "timed out");
    assert_eq!(c.finish_call(Err(e.clone())).unwrap_err(), e);
}

#[test]
fn calls_in_sequence_are_independent() {
    let c = open();
    let ok = || Reply { msg_type: DBusMessageType::MethodReturn, reply_serial: 1, error_name: String::new(), body: vec![] };
    let failed = Error::new("org.freedesktop.DBus.Error.NoReply", "timed out");
    assert!(c.finish_call(Err(failed.clone())).is_err());
    assert!(c.finish_call(Ok(ok())).is_ok());
    assert!(c.finish_call(Ok(ok())).is_ok());
    assert!(c.finish_call(Err(failed)).is_err());
}

#[test]
fn object_call_matches_connection_call() {
    let mut c = open();
    let args = [MessageItem::Int32(4)];
    let expected = c.method_call("org.mpris.MediaPlayer2", "/org/mpris/MediaPlayer2", "", "Play", &args).unwrap();
    let o = c.stub("org.mpris.MediaPlayer2", "/org/mpris/MediaPlayer2");
    assert_eq!(o.call("Play", &args).unwrap(), expected);
    let bad = [MessageItem::ObjectPath("x".to_string())];
    assert!(o.call("Play", &bad).unwrap_err().is_invalid_argument());
    let full = o.call_full("org.mpris.MediaPlayer2.Player", "Play", &[]).unwrap();
    assert_eq!(full.interface, "org.mpris.MediaPlayer2.Player");
    assert_eq!(full.destination, "org.mpris.MediaPlayer2");
    let _ = &mut c;
}

#[test]
fn replies_to_a_call() {
    let mut call = MethodCall::new("org.example", "/", "", "Get");
    call.serial = 17;
    call.sender = ":1.42".to_string();
    let r = call.respond_with(&[MessageItem::Bool(true)]).unwrap();
    assert!(call.respond_with(&[MessageItem::ObjectPath("x".to_string())]).is_err());
    assert_eq!(r.reply_serial, 17);
    assert_eq!(r.destination, ":1.42");
    assert_eq!(r.get_items(), vec![MessageItem::Bool(true)]);
    let empty = call.new_response();
    assert_eq!(empty.get_items(), vec![]);
    assert_eq!(call.new_return().reply_serial, 17);
}

#[test]
fn error_reply_names() {
    let call = MethodCall::new("org.example", "/", "", "Get");
    let e = call.new_error("", "bad");
    assert_eq!(e.name, "org.freedesktop.DBus.Error.Failed");
    assert_eq!(e.get_items(), vec![MessageItem::Str("bad".to_string())]);
    let e = call.new_error("org.example.Error.Nope", "no");
    assert_eq!(e.name, "org.example.Error.Nope");
}

#[test]
fn empty_error_is_not_set() {
    assert!(!Error::empty().is_set());
    let e = Error::invalid_argument("x");
    assert!(e.is_set());
    assert_eq!(e.message(), "x");
}

#[test]
fn codes() {
    assert_eq!(DBusMessageType::from_code(2), DBusMessageType::MethodReturn);
    assert_eq!(DBusMessageType::from_code(3), DBusMessageType::Error);
    assert_eq!(DBusMessageType::from_code(9), DBusMessageType::Invalid);
    assert_eq!(DBusMessageType::Signal.code(), 4);
    assert_eq!(DBusBusType::Starter.code(), 2);
    assert_eq!(DBusNameFlag::DoNotQueue.code(), 4);
}

#[test]
fn error_reply_without_name_gets_generic_name() {
    let c = open();
    let reply = Reply { msg_type: DBusMessageType::Error, reply_serial: 2, error_name: String::new(), body: vec![] };
    let e = c.finish_call(Ok(reply)).unwrap_err();
    assert!(e.is_set());
    assert_eq!(e.name(), "org.freedesktop.DBus.Error.Failed");
}

#[test]
fn method_call_rejects_unbuildable_arguments() {
    let c = open();
    let e = c.method_call("org.example", "/", "", "M", &[MessageItem::ObjectPath("not-a-path".to_string())]).unwrap_err();
    assert!(e.is_invalid_argument());
}

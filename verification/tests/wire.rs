use bytes::{BufMut, BytesMut};
use ezmsg::text::same_text;
use ezmsg::wire::{encode, encode_into, push_ended, put_ended, wire_size};
use ezmsg::{Error, Msg};

#[test]
fn topic_alone_is_two_lines() {
    let msg = Msg::new_topic("SomeTopic").unwrap();
    assert_eq!(msg.serialize().unwrap(), b"SomeTopic\n\n".to_vec());
}

#[test]
fn one_parameter_is_one_line() {
    let mut msg = Msg::new_topic("T").unwrap();
    msg.add_str("Foo", "bar");
    assert_eq!(msg.serialize().unwrap(), b"T\nFoo bar\n\n".to_vec());
}

#[test]
fn parameters_are_written_in_their_order() {
    let mut msg = Msg::new_topic("T").unwrap();
    msg.add_str("b", "2");
    msg.add_str("a", "1");
    msg.add_param("n", -7i16);
    msg.add_str("b", "two");
    assert_eq!(msg.serialize().unwrap(), b"T\nb two\na 1\nn -7\n\n".to_vec());
}

#[test]
fn encoding_twice_gives_the_same_bytes() {
    let mut msg = Msg::new_topic("T").unwrap();
    msg.add_str("a", "1");
    msg.add_str("b", "2");
    let first = msg.serialize().unwrap();
    let second = msg.serialize().unwrap();
    assert_eq!(first, second);
    assert_eq!(msg.get_param("a"), Some("1"));
}

#[test]
fn missing_topic_is_refused() {
    let mut msg = Msg::new();
    msg.add_str("Foo", "bar");
    match msg.serialize() {
        Err(Error::BadFormat(s)) => assert_eq!(s, "Missing heading"),
        other => panic!("unexpected: {:?}", other),
    }
}

#[test]
fn strings_are_written_as_utf8_without_escaping() {
    let mut msg = Msg::new_topic("\u{00E9}t\u{00E9}").unwrap();
    msg.add_str("k y", "v\nw");
    msg.add_str("\u{4EAC}", "\u{1F49D}");
    let mut want = Vec::new();
    want.extend_from_slice("\u{00E9}t\u{00E9}".as_bytes());
    want.push(b'\n');
    want.extend_from_slice(b"k y v\nw\n");
    want.extend_from_slice("\u{4EAC}".as_bytes());
    want.push(b' ');
    want.extend_from_slice("\u{1F49D}".as_bytes());
    want.extend_from_slice(b"\n\n");
    assert_eq!(msg.serialize().unwrap(), want);
}

#[test]
fn empty_key_and_value_still_take_a_line() {
    let mut msg = Msg::new_topic("T").unwrap();
    msg.add_str("", "");
    assert_eq!(msg.serialize().unwrap(), b"T\n \n\n".to_vec());
}

#[test]
fn buffer_gets_the_same_bytes() {
    let mut msg = Msg::new_topic("SomeTopic").unwrap();
    msg.add_str("Foo", "bar");
    msg.add_param("Num", 64u16);
    let mut buf = BytesMut::new();
    msg.encoder_write(&mut buf).unwrap();
    assert_eq!(&buf[..], b"SomeTopic\nFoo bar\nNum 64\n\n");
    assert_eq!(&buf[..], &msg.serialize().unwrap()[..]);
}

#[test]
fn buffer_keeps_what_it_held() {
    let msg = Msg::new_topic("T").unwrap();
    let mut buf = BytesMut::with_capacity(4);
    buf.put_slice(b"abc");
    msg.encoder_write(&mut buf).unwrap();
    assert_eq!(&buf[..], b"abcT\n\n");
    msg.encoder_write(&mut buf).unwrap();
    assert_eq!(&buf[..], b"abcT\n\nT\n\n");
}

#[test]
fn buffer_is_untouched_without_a_topic() {
    let mut msg = Msg::new();
    msg.add_str("Foo", "bar");
    let mut buf = BytesMut::new();
    buf.put_slice(b"abc");
    match msg.encoder_write(&mut buf) {
        Err(Error::SerializeError(s)) => assert_eq!(s, "Missing Msg topic"),
        other => panic!("unexpected: {:?}", other),
    }
    assert_eq!(&buf[..], b"abc");
}

#[test]
fn buffer_that_was_split_is_written_to() {
    let mut msg = Msg::new_topic("T").unwrap();
    msg.add_str("a", "1");
    let mut buf = BytesMut::with_capacity(64);
    buf.put_slice(b"0123456789");
    let head = buf.split_to(6);
    assert_eq!(&head[..], b"012345");
    msg.encoder_write(&mut buf).unwrap();
    assert_eq!(&buf[..], b"6789T\na 1\n\n");
}

#[test]
fn size_is_counted_as_the_format_says() {
    let none: Vec<(String, String)> = Vec::new();
    assert_eq!(wire_size("SomeTopic", &none), Some(11));
    assert_eq!(wire_size("T", &none), Some(3));
    let one = vec![("Foo".to_string(), "bar".to_string())];
    assert_eq!(wire_size("T", &one), Some(11));
    let two = vec![
        ("Foo".to_string(), "bar".to_string()),
        ("\u{4EAC}".to_string(), "".to_string()),
    ];
    assert_eq!(wire_size("T", &two), Some(16));
    assert_eq!(wire_size("T", &two), Some(encode("T", &two).len()));
}

#[test]
fn encode_and_encode_into_agree() {
    let params = vec![
        ("a".to_string(), "1".to_string()),
        ("b c".to_string(), "\u{00E9}".to_string()),
    ];
    let bytes = encode("Topic", &params);
    let mut buf = BytesMut::new();
    encode_into("Topic", &params, &mut buf);
    assert_eq!(&buf[..], &bytes[..]);
    assert_eq!(bytes, "Topic\na 1\nb c \u{00E9}\n\n".as_bytes().to_vec());
}

#[test]
fn a_string_and_its_ending_are_appended() {
    let mut v = vec![1u8, 2];
    push_ended(&mut v, "ab", b' ');
    assert_eq!(v, vec![1, 2, b'a', b'b', b' ']);
    push_ended(&mut v, "", b'\n');
    assert_eq!(v, vec![1, 2, b'a', b'b', b' ', b'\n']);

    let mut buf = BytesMut::new();
    put_ended(&mut buf, "ab", b' ');
    put_ended(&mut buf, "", b'\n');
    assert_eq!(&buf[..], b"ab \n");
}

#[test]
fn strings_are_compared_by_what_they_hold() {
    assert!(same_text("", ""));
    assert!(same_text("abc", "abc"));
    assert!(!same_text("abc", "abd"));
    assert!(!same_text("abc", "ab"));
    assert!(!same_text("ab", "abc"));
    assert!(!same_text("\u{00E9}", "e\u{0301}"));
    assert!(same_text("\u{4EAC}\u{90FD}", "\u{4EAC}\u{90FD}"));
}

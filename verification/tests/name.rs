use askrs::dns::name::{Label, Name};
use askrs::wire::name::NameError;

#[test]
fn test_read_labels() {
    let data: Vec<u8> = vec![6, 103, 111, 111, 103, 108, 101, 3, 99, 111, 109, 0];
    let res = Label::read_labels(data).unwrap();
    let expected_strings: Vec<String> = vec![String::from("google"), String::from("com")];
    for (idx, v) in res.iter().enumerate() {
        assert_eq!(expected_strings[idx], v.get_string());
    }
}

#[test]
fn test_decompressing() {
    let data: Vec<u8> = vec![6, 103, 111, 111, 103, 108, 101, 3, 99, 111, 109, 0];
    let compressed: Vec<u8> = vec![192, 7];
    let res = Label::read_labels(compressed).unwrap();
    assert_eq!(res[0].is_compressed, true);
    let decompressed = res[0].decompress(data).unwrap();
    let expected_strings: Vec<String> = vec![String::from("com")];
    for (idx, v) in decompressed.iter().enumerate() {
        assert_eq!(expected_strings[idx], v.get_string());
    }
}

#[test]
fn test_name_decompression() {
    let data: Vec<u8> = vec![6, 103, 111, 111, 103, 108, 101, 3, 99, 111, 109, 0];
    let compressed: Vec<u8> = vec![3, 97, 112, 105, 192, 0];
    let expected_name: String = String::from("api.google.com");
    let compressed_name = Name::from_bytes(compressed, 0).unwrap();
    let decompressed = compressed_name.decompress(data.to_vec()).unwrap();
    assert_eq!(expected_name, decompressed.get_string().unwrap());
    assert_eq!(16, decompressed.get_bytes_length());
}

#[test]
fn test_name_from_string() {
    let data: Vec<u8> = vec![6, 103, 111, 111, 103, 108, 101, 3, 99, 111, 109, 0];
    let name = Name::from_string(String::from("google.com")).unwrap();
    for (idx, v) in name.get_bytes().iter().enumerate() {
        assert_eq!(&data[idx], v);
    }
}

#[test]
fn name_bytes_are_exact() {
    let name = Name::from_string(String::from("google.com")).unwrap();
    assert_eq!(
        name.get_bytes(),
        vec![6, 103, 111, 111, 103, 108, 101, 3, 99, 111, 109, 0]
    );
    assert_eq!(name.get_bytes_length(), 12);
    assert!(!name.is_compressed());
}

#[test]
fn closing_dot_adds_no_label() {
    let with_dot = Name::from_string(String::from("google.com.")).unwrap();
    let without = Name::from_string(String::from("google.com")).unwrap();
    assert_eq!(with_dot.get_bytes(), without.get_bytes());
    assert_eq!(with_dot.get_string().unwrap(), "google.com");
}

#[test]
fn empty_label_in_the_middle_is_written_as_zero() {
    let name = Name::from_string(String::from("a..b")).unwrap();
    assert_eq!(name.get_bytes(), vec![1, 97, 0, 1, 98, 0]);
}

#[test]
fn uncompressed_name_decodes() {
    let buf: Vec<u8> = vec![
        0x06, 0x67, 0x6F, 0x6F, 0x67, 0x6C, 0x65, 0x03, 0x63, 0x6F, 0x6D, 0x00,
    ];
    let (name, cursor) = Name::decode(&buf, 0).unwrap();
    assert_eq!(name.get_string().unwrap(), "google.com");
    assert_eq!(cursor, 12);
}

#[test]
fn compressed_name_decodes() {
    let buf: Vec<u8> = vec![
        0x06, 0x67, 0x6F, 0x6F, 0x67, 0x6C, 0x65, 0x03, 0x63, 0x6F, 0x6D, 0x00, 0x03, 0x61, 0x70,
        0x69, 0xC0, 0x00,
    ];
    let (name, cursor) = Name::decode(&buf, 12).unwrap();
    assert_eq!(name.get_string().unwrap(), "api.google.com");
    assert_eq!(cursor, 18);
    assert!(!name.is_compressed());
    assert_eq!(name.get_bytes_length(), 16);
}

#[test]
fn self_pointing_name_is_refused() {
    let mut buf: Vec<u8> = vec![0; 12];
    buf.push(0xC0);
    buf.push(12);
    assert_eq!(Name::decode(&buf, 12).err(), Some(NameError::InvalidPointer));
}

#[test]
fn forward_pointer_is_refused() {
    let buf: Vec<u8> = vec![0xC0, 0x04, 0, 0, 1, 97, 0];
    assert_eq!(Name::decode(&buf, 0).err(), Some(NameError::InvalidPointer));
    let buf: Vec<u8> = vec![1, 97, 0, 0xC0, 0x05, 0xC0, 0x03];
    assert_eq!(Name::decode(&buf, 5).err(), Some(NameError::InvalidPointer));
}

#[test]
fn pointer_at_the_end_of_a_name() {
    let buf: Vec<u8> = vec![3, 99, 111, 109, 0, 1, 97, 1, 98, 0xC0, 0x00];
    let (name, cursor) = Name::decode(&buf, 5).unwrap();
    assert_eq!(name.get_string().unwrap(), "a.b.com");
    assert_eq!(cursor, 11);
}

#[test]
fn pointer_into_another_pointer_chain() {
    let buf: Vec<u8> = vec![
        3, 99, 111, 109, 0, // "com" at 0
        6, 103, 111, 111, 103, 108, 101, 0xC0, 0x00, // "google" -> 0, at 5
        3, 97, 112, 105, 0xC0, 0x05, // "api" -> 5, at 14
        0xC0, 0x0E, // -> 14, at 20
    ];
    let (name, cursor) = Name::decode(&buf, 20).unwrap();
    assert_eq!(name.get_string().unwrap(), "api.google.com");
    assert_eq!(cursor, 22);
}

#[test]
fn pointer_chain_is_bounded() {
    // A zero octet at 0, then pointers at 2, 4, 6, ... each naming the one before.
    let mut buf: Vec<u8> = vec![0, 0];
    for k in 1..=140u16 {
        let target = if k == 1 { 0 } else { 2 * (k - 1) };
        buf.push(0xC0 | (target >> 8) as u8);
        buf.push((target & 0xFF) as u8);
    }
    // The pointer at 2 * k starts a chain of k pointers.
    let (name, cursor) = Name::decode(&buf, 2 * 128).unwrap();
    assert_eq!(name.get_string().unwrap(), "");
    assert_eq!(cursor, 2 * 128 + 2);
    assert_eq!(Name::decode(&buf, 2 * 129).err(), Some(NameError::PointerLoop));
}

#[test]
fn reserved_label_kinds_are_refused() {
    assert_eq!(
        Name::decode(&[0x40, 0, 0], 0).err(),
        Some(NameError::ReservedLabelKind)
    );
    assert_eq!(
        Name::decode(&[0x80, 0, 0], 0).err(),
        Some(NameError::ReservedLabelKind)
    );
    assert_eq!(
        Label::read_labels(vec![0xBF, 0]).err(),
        Some(NameError::ReservedLabelKind)
    );
}

#[test]
fn truncated_names_are_refused() {
    assert_eq!(Name::decode(&[], 0).err(), Some(NameError::UnexpectedEnd));
    assert_eq!(Name::decode(&[3, 97, 98], 0).err(), Some(NameError::UnexpectedEnd));
    assert_eq!(Name::decode(&[1, 97], 0).err(), Some(NameError::UnexpectedEnd));
    assert_eq!(Name::decode(&[0xC0], 0).err(), Some(NameError::UnexpectedEnd));
    assert_eq!(Name::decode(&[0], 5).err(), Some(NameError::UnexpectedEnd));
}

fn label(len: usize, c: char) -> String {
    std::iter::repeat(c).take(len).collect()
}

#[test]
fn label_of_63_bytes() {
    let text = label(63, 'a');
    let l = Label::from_string(text.clone()).unwrap();
    assert_eq!(l.to_bytes().len(), 64);
    assert_eq!(l.to_bytes()[0], 63);
    assert_eq!(l.get_string(), text);
    assert_eq!(
        Label::from_string(label(64, 'a')).err(),
        Some(NameError::LabelTooLong)
    );
    assert_eq!(
        Name::from_string(label(64, 'a') + ".com").err(),
        Some(NameError::LabelTooLong)
    );
}

#[test]
fn name_length_limit() {
    // 254 octets of text with a closing dot: 255 bytes on the wire.
    let text = format!(
        "{}.{}.{}.{}.",
        label(63, 'a'),
        label(63, 'b'),
        label(63, 'c'),
        label(61, 'd')
    );
    assert_eq!(text.len(), 254);
    let name = Name::from_string(text.clone()).unwrap();
    assert_eq!(name.get_bytes().len(), 255);
    assert_eq!(name.get_bytes_length(), 255);
    let longer = text + "e";
    assert_eq!(
        Name::from_string(longer).err(),
        Some(NameError::NameTooLong)
    );
}

#[test]
fn name_of_255_bytes_decodes_to_itself() {
    let text = format!(
        "{}.{}.{}.{}",
        label(63, 'a'),
        label(63, 'b'),
        label(63, 'c'),
        label(61, 'd')
    );
    let name = Name::from_string(text.clone()).unwrap();
    let wire = name.get_bytes();
    assert_eq!(wire.len(), 255);
    let (back, cursor) = Name::decode(&wire, 0).unwrap();
    assert_eq!(cursor, 255);
    assert_eq!(back.get_string().unwrap(), text);
    assert_eq!(back.get_bytes(), wire);
}

#[test]
fn expanded_name_may_not_pass_255_bytes() {
    // 63 + 63 + 63 + 61 bytes of labels at 0, then one more label pointing at them.
    let text = format!(
        "{}.{}.{}.{}",
        label(63, 'a'),
        label(63, 'b'),
        label(63, 'c'),
        label(61, 'd')
    );
    let mut buf = Name::from_string(text).unwrap().get_bytes();
    let at = buf.len();
    buf.extend_from_slice(&[1, 120, 0xC0, 0x00]);
    assert_eq!(Name::decode(&buf, at).err(), Some(NameError::NameTooLong));
}

#[test]
fn bad_names_are_refused() {
    assert_eq!(
        Name::from_string(String::new()).err(),
        Some(NameError::EmptyName)
    );
    assert_eq!(
        Name::from_string(String::from("b\u{fc}cher.de")).err(),
        Some(NameError::NonAscii)
    );
    assert_eq!(
        Label::from_string(String::from("\u{e9}")).err(),
        Some(NameError::NonAscii)
    );
}

#[test]
fn round_trip_of_a_name() {
    for text in ["a", "example.org", "www.example.co.uk", "x.y.z"] {
        let name = Name::from_string(String::from(text)).unwrap();
        let wire = name.get_bytes();
        let (back, cursor) = Name::decode(&wire, 0).unwrap();
        assert_eq!(cursor, wire.len());
        assert_eq!(back.get_string().unwrap(), text);
    }
}

#[test]
fn compressed_name_has_no_text() {
    let name = Name::from_bytes(vec![3, 97, 112, 105, 192, 0], 0).unwrap();
    assert!(name.is_compressed());
    assert_eq!(name.get_string().err(), Some(NameError::Compressed));
    assert_eq!(name.get_bytes(), vec![3, 97, 112, 105, 192, 0]);
    assert_eq!(name.get_bytes_length(), 6);
    let plain = Name::from_string(String::from("a")).unwrap();
    assert_eq!(
        plain.decompress(vec![0]).err(),
        Some(NameError::NotCompressed)
    );
}

#[test]
fn pointer_label_keeps_fourteen_bits() {
    let labels = Label::read_labels(vec![0xC1, 0x02]).unwrap();
    assert_eq!(labels.len(), 1);
    assert!(labels[0].is_compressed());
    assert_eq!(labels[0].offset(), 0x0102);
    assert_eq!(labels[0].to_bytes(), vec![0xC1, 0x02]);
    assert_eq!(labels[0].get_string(), "");
    assert_eq!(
        labels[0].decompress(vec![0; 10]).err(),
        Some(NameError::UnexpectedEnd)
    );
    let plain = Label::from_string(String::from("a")).unwrap();
    assert_eq!(plain.decompress(vec![0]).err(), Some(NameError::NotCompressed));
}

#[test]
fn encode_and_render() {
    assert_eq!(
        Name::encode("google.com").unwrap(),
        vec![6, 103, 111, 111, 103, 108, 101, 3, 99, 111, 109, 0]
    );
    assert_eq!(Name::encode("").err(), Some(NameError::EmptyName));
    assert_eq!(Name::encode("a.\u{df}").err(), Some(NameError::NonAscii));
    let wire = Name::encode("www.example.org.").unwrap();
    let (name, cursor) = Name::decode(&wire, 0).unwrap();
    assert_eq!(cursor, wire.len());
    assert_eq!(name.render().unwrap(), "www.example.org");
    let partial = Name::from_bytes(vec![1, 97, 0xC0, 0], 0).unwrap();
    assert_eq!(partial.render().err(), Some(NameError::Compressed));
}

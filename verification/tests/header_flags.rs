use askrs::dns::header::Header;
use askrs::dns::header_flags::{Flags, OPCODE, RCODE};
use askrs::wire::error::DnsError;

#[test]
fn test_r_code_from_bytes() {
    assert!(matches!(RCODE::from_byte(0), RCODE::NOERR));
    assert!(matches!(RCODE::from_byte(1), RCODE::FMTERR));
    assert!(matches!(RCODE::from_byte(2), RCODE::SRVFAIL));
    assert!(matches!(RCODE::from_byte(3), RCODE::NAMEERR));
    assert!(matches!(RCODE::from_byte(4), RCODE::NOTIMPL));
    assert!(matches!(RCODE::from_byte(5), RCODE::REFUSED));
    assert!(matches!(RCODE::from_byte(6), RCODE::UNKNOWN(6)));
}

#[test]
fn test_r_code_is_err() {
    assert_eq!(false, RCODE::NOERR.is_err());
    assert!(RCODE::FMTERR.is_err());
    assert!(RCODE::SRVFAIL.is_err());
    assert!(RCODE::NAMEERR.is_err());
    assert!(RCODE::NOTIMPL.is_err());
    assert!(RCODE::REFUSED.is_err());
    assert!(RCODE::UNKNOWN(6).is_err());
}

#[test]
fn rcode_reads_the_low_nibble_only() {
    assert_eq!(RCODE::from_byte(0b1000_0011), RCODE::NAMEERR);
    assert_eq!(RCODE::from_byte(0xF0), RCODE::NOERR);
    assert_eq!(RCODE::from_byte(0x0F), RCODE::UNKNOWN(15));
    assert_eq!(RCODE::from_byte(0xF6), RCODE::UNKNOWN(6));
}

#[test]
fn opcode_reads_bits_three_to_six() {
    assert_eq!(OPCODE::from_byte(0), OPCODE::QUERY);
    assert_eq!(OPCODE::from_byte(0b0000_1000), OPCODE::IQUERY);
    assert_eq!(OPCODE::from_byte(0b0001_0000), OPCODE::STATUS);
    assert_eq!(OPCODE::from_byte(0b0111_1000), OPCODE::UNKNOWN(15));
    assert_eq!(OPCODE::from_byte(0b1001_1111), OPCODE::UNKNOWN(3));
    assert_eq!(OPCODE::from_byte(0b1000_0111), OPCODE::QUERY);
    assert_eq!(OPCODE::QUERY.to_string(), "OPCODE: Query");
}

#[test]
fn flags_of_a_response() {
    let f = Flags::from_bytes(vec![0x81, 0x80]);
    assert_eq!(f.data(), [0x81, 0x80]);
    assert!(f.is_response());
    assert!(f.is_recursion_desired());
    assert!(f.is_recursion_available());
    assert!(!f.is_aa());
    assert!(!f.is_truncated());
    assert_eq!(f.get_rcode(), RCODE::NOERR);
    assert_eq!(f.get_opcode(), OPCODE::QUERY);
    let g = Flags::from_bytes(vec![0b0000_0110, 0x03]);
    assert!(g.is_aa());
    assert!(g.is_truncated());
    assert!(!g.is_recursion_desired());
    assert_eq!(g.get_rcode(), RCODE::NAMEERR);
}

#[test]
fn flags_setters() {
    let mut f = Flags::new();
    assert_eq!(f.data(), [0, 0]);
    f.set_to_query();
    f.set_standard_query();
    assert_eq!(f.data(), [0, 0]);
    f.set_recursive();
    assert_eq!(f.data(), [1, 0]);
}

#[test]
fn flags_in_words() {
    let f = Flags::from_bytes(vec![0x01, 0x80]);
    assert_eq!(
        f.to_string(),
        "OPCODE: Query\nAuthoritative Answer: False\nRecursive: True\nRecursion Available: True\nNo Errors encountered."
    );
}

#[test]
fn query_header_bytes() {
    let h = Header::new_query(0xDEAD, Some(true));
    assert_eq!(
        h.to_bytes(),
        vec![0xDE, 0xAD, 0x01, 0x00, 0x00, 0x01, 0x00, 0x00, 0x00, 0x00, 0x00, 0x00]
    );
    assert_eq!(h.id(), 0xDEAD);
    assert!(!h.flags().is_response());
    assert!(h.flags().is_recursion_desired());
    let h = Header::new_query(0xC0AF, Some(true));
    assert_eq!(h.to_bytes(), vec![192, 175, 1, 0, 0, 1, 0, 0, 0, 0, 0, 0]);
    let h = Header::new_query(0x00FF, None);
    assert_eq!(h.to_bytes(), vec![0, 255, 0, 0, 0, 1, 0, 0, 0, 0, 0, 0]);
    let h = Header::new_query(0xC0AF, Some(false));
    assert_eq!(h.to_bytes(), vec![192, 175, 0, 0, 0, 1, 0, 0, 0, 0, 0, 0]);
    assert_eq!(h.q_count(), 1);
    assert_eq!(h.an_count(), 0);
    assert_eq!(h.id(), 0xC0AF);
}

#[test]
fn header_reads_back() {
    let bytes: Vec<u8> = vec![0xDE, 0xAD, 0x81, 0x83, 0x00, 0x01, 0x00, 0x02, 0x00, 0x03, 0x01, 0x04, 9, 9];
    let h = Header::from_bytes(bytes.clone()).unwrap();
    assert_eq!(h.id(), 0xDEAD);
    assert_eq!(h.q_count(), 1);
    assert_eq!(h.an_count(), 2);
    assert_eq!(h.ns_count(), 3);
    assert_eq!(h.ar_count(), 0x0104);
    assert_eq!(h.rcode(), RCODE::NAMEERR);
    assert!(h.flags().is_response());
    assert_eq!(h.to_bytes(), bytes[0..12].to_vec());
}

#[test]
fn short_header_is_refused() {
    assert_eq!(
        Header::from_bytes(vec![0; 11]).err(),
        Some(DnsError::ShortHeader)
    );
    assert_eq!(Header::from_bytes(vec![]).err(), Some(DnsError::ShortHeader));
    assert!(Header::from_bytes(vec![0; 12]).is_ok());
}

#[test]
fn header_in_words() {
    let h = Header::from_bytes(vec![0xDE, 0xAD, 0x01, 0x00, 0, 1, 0, 12, 1, 0, 0xFF, 0xFF])
        .unwrap();
    assert_eq!(
        h.to_string(),
        "ID: 0xdead\nFlags: 0x100\nQuestion count: 1\nResource Records: 12\nName Server Records: 256\nAdditional Records: 65535"
    );
    let z = Header::from_bytes(vec![0; 12]).unwrap();
    assert_eq!(
        z.to_string(),
        "ID: 0x0\nFlags: 0x0\nQuestion count: 0\nResource Records: 0\nName Server Records: 0\nAdditional Records: 0"
    );
}

#[test]
fn setters_clear_what_they_name() {
    let mut f = Flags::from_bytes(vec![0xFF, 0xFF]);
    assert!(f.is_response());
    f.set_to_query();
    assert_eq!(f.data(), [0x7F, 0xFF]);
    assert!(!f.is_response());
    assert_eq!(f.get_opcode(), OPCODE::UNKNOWN(15));
    f.set_standard_query();
    assert_eq!(f.data(), [0x07, 0xFF]);
    assert_eq!(f.get_opcode(), OPCODE::QUERY);
    assert!(f.is_aa());
    assert!(f.is_truncated());
    assert!(f.is_recursion_desired());
    let mut g = Flags::from_bytes(vec![0b1001_0001, 0x03]);
    g.set_standard_query();
    assert_eq!(g.data(), [0b1000_0001, 0x03]);
    assert!(g.is_response());
    g.set_to_query();
    assert_eq!(g.data(), [0b0000_0001, 0x03]);
}

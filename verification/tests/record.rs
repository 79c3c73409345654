use askrs::dns::question::{QClass, Question};
use askrs::dns::rdata::RecordData;
use askrs::dns::record::{AAAARecord, ARecord, CNAMERecord, MXRecord, NSRecord};
use askrs::wire::error::DnsError;
use askrs::wire::name::NameError;
use askrs::wire::rtype::RecordType;

#[test]
fn test_aaaa_record() {
    let data: Vec<u8> = vec![
        244, 144, 131, 10, 253, 198, 107, 97, 126, 155, 106, 122, 200, 157, 89, 237,
    ];
    let record = AAAARecord::from_bytes(data.to_vec(), 0).unwrap();
    assert_eq!(
        record.groups(),
        [0xF490, 0x830A, 0xFDC6, 0x6B61, 0x7E9B, 0x6A7A, 0xC89D, 0x59ED]
    );
}

#[test]
#[should_panic]
fn test_aaaa_to_few_bytes() {
    let data: Vec<u8> = vec![244, 144, 131, 10, 253, 198, 107, 97, 126, 155, 106, 122];
    let _record = AAAARecord::from_bytes(data.to_vec(), 0).unwrap();
}

#[test]
fn aaaa_record_of_too_few_bytes_is_refused() {
    let data: Vec<u8> = vec![244, 144, 131, 10, 253, 198, 107, 97, 126, 155, 106, 122];
    let mismatch = Some(DnsError::RdataLengthMismatch);
    assert_eq!(AAAARecord::from_bytes(data.to_vec(), 0).err(), mismatch);
    assert_eq!(AAAARecord::from_bytes(vec![0; 17], 0).err(), mismatch);
    assert!(AAAARecord::from_bytes(vec![0; 17], 1).is_ok());
    assert_eq!(ARecord::from_bytes(vec![1, 2, 3], 0).err(), mismatch);
    assert_eq!(ARecord::from_bytes(vec![1, 2, 3, 4, 5], 0).err(), mismatch);
    assert_eq!(ARecord::from_bytes(vec![1, 2, 3, 4], 1).err(), mismatch);
    assert_eq!(ARecord::from_bytes(vec![1, 2, 3, 4], 9).err(), mismatch);
    assert_eq!(ARecord::from_bytes(vec![], 0).err(), mismatch);
}

#[test]
fn test_record_type_from_bytes() {
    assert!(matches!(RecordType::from_bytes([0, 1]), RecordType::A));
    assert!(matches!(RecordType::from_bytes([0, 2]), RecordType::NS));
    assert!(matches!(RecordType::from_bytes([0, 5]), RecordType::CNAME));
    assert!(matches!(RecordType::from_bytes([0, 28]), RecordType::AAAA));
    assert!(matches!(RecordType::from_bytes([0, 15]), RecordType::MX));
    assert!(matches!(RecordType::from_bytes([0, 245]), RecordType::UNKNOWN(245)));
}

#[test]
fn test_record_type_to_string() {
    assert_eq!(RecordType::A.to_string(), "A".to_string());
    assert_eq!(RecordType::AAAA.to_string(), "AAAA".to_string());
    assert_eq!(RecordType::CNAME.to_string(), "CNAME".to_string());
    assert_eq!(RecordType::MX.to_string(), "MX".to_string());
    assert_eq!(RecordType::NS.to_string(), "NS".to_string());
}

#[test]
fn test_record_type_from_string() {
    assert!(matches!(RecordType::from_string("A".to_string()), RecordType::A));
    assert!(matches!(RecordType::from_string("AAAA".to_string()), RecordType::AAAA));
    assert!(matches!(RecordType::from_string("CNAME".to_string()), RecordType::CNAME));
    assert!(matches!(RecordType::from_string("MX".to_string()), RecordType::MX));
    assert!(matches!(RecordType::from_string("NS".to_string()), RecordType::NS));
}

#[test]
fn record_type_codes() {
    let codes: [(RecordType, u16); 21] = [
        (RecordType::A, 1),
        (RecordType::NS, 2),
        (RecordType::MD, 3),
        (RecordType::MF, 4),
        (RecordType::CNAME, 5),
        (RecordType::SOA, 6),
        (RecordType::MB, 7),
        (RecordType::MG, 8),
        (RecordType::MR, 9),
        (RecordType::NULL, 10),
        (RecordType::WKS, 11),
        (RecordType::PTR, 12),
        (RecordType::HINFO, 13),
        (RecordType::MINFO, 14),
        (RecordType::MX, 15),
        (RecordType::TXT, 16),
        (RecordType::AAAA, 28),
        (RecordType::AXFR, 252),
        (RecordType::MAILB, 253),
        (RecordType::MAILA, 254),
        (RecordType::ANY, 255),
    ];
    for (t, code) in codes {
        assert_eq!(t.code(), code);
        assert_eq!(RecordType::from_code(code), t);
        assert_eq!(RecordType::try_from(code), Ok(t));
        assert_eq!(u16::from(t), code);
        assert_eq!(t.to_bytes(), vec![(code >> 8) as u8, code as u8]);
        assert_eq!(RecordType::as_bytes(t), [(code >> 8) as u8, code as u8]);
        assert_eq!(RecordType::from_string(t.to_string()), t);
        assert_eq!(RecordType::from_bytes([(code >> 8) as u8, code as u8]), t);
    }
    let kept = RecordType::UNKNOWN(999);
    let b = kept.to_bytes();
    assert_eq!(b, vec![0x03, 0xE7]);
    assert_eq!(RecordType::from_bytes([b[0], b[1]]), kept);
    assert_eq!(RecordType::from_code(17), RecordType::UNKNOWN(17));
    assert_eq!(RecordType::from_code(0), RecordType::UNKNOWN(0));
    assert_eq!(RecordType::UNKNOWN(4711).code(), 4711);
    assert_eq!(RecordType::try_from(17u16), Err(()));
    assert_eq!(RecordType::from_string("nonsense".to_string()), RecordType::A);
}

#[test]
fn a_record_reads_four_octets() {
    let r = ARecord::from_bytes(vec![9, 8, 8, 4, 4], 1).unwrap();
    assert_eq!(r.octets(), [8, 8, 4, 4]);
}

#[test]
fn name_payloads_resolve_against_the_message() {
    let src: Vec<u8> = vec![6, 103, 111, 111, 103, 108, 101, 3, 99, 111, 109, 0];
    let c = CNAMERecord::from_bytes(vec![3, 97, 112, 105, 192, 0], src.clone(), 0).unwrap();
    assert_eq!(c.name.get_string().unwrap(), "api.google.com");
    let n = NSRecord::from_bytes(vec![0, 2, 110, 115, 192, 7], src.clone(), 1).unwrap();
    assert_eq!(n.nsdname.get_string().unwrap(), "ns.com");
    let m = MXRecord::from_bytes(vec![0, 10, 4, 109, 97, 105, 108, 192, 0], src.clone(), 0)
        .unwrap();
    assert_eq!(m.preference, 10);
    assert_eq!(m.exchange.get_string().unwrap(), "mail.google.com");
    let plain = CNAMERecord::from_bytes(vec![1, 97, 0], src.clone(), 0).unwrap();
    assert_eq!(plain.name.get_string().unwrap(), "a");
    assert_eq!(
        MXRecord::from_bytes(vec![0], src.clone(), 0).err(),
        Some(DnsError::RdataLengthMismatch)
    );
    assert_eq!(
        CNAMERecord::from_bytes(vec![1, 97, 0, 0], src.clone(), 0).err(),
        Some(DnsError::RdataLengthMismatch)
    );
    assert_eq!(
        NSRecord::from_bytes(vec![2, 110, 115, 192, 7, 9], src.clone(), 0).err(),
        Some(DnsError::RdataLengthMismatch)
    );
    assert_eq!(
        MXRecord::from_bytes(vec![0, 10, 1, 97, 0, 0], src.clone(), 0).err(),
        Some(DnsError::RdataLengthMismatch)
    );
    assert_eq!(
        CNAMERecord::from_bytes(vec![1], src, 0).err(),
        Some(DnsError::InvalidDomainName(NameError::UnexpectedEnd))
    );
}

fn message_with(rdata: &[u8]) -> (Vec<u8>, usize) {
    let mut msg: Vec<u8> = vec![3, 99, 111, 109, 0];
    let at = msg.len();
    msg.extend_from_slice(rdata);
    msg.extend_from_slice(&[0xEE, 0xEE]);
    (msg, at)
}

#[test]
fn payload_shapes() {
    let (msg, at) = message_with(&[8, 8, 8, 8]);
    match RecordData::decode(&msg, at, 4, 1).unwrap() {
        RecordData::A(a) => assert_eq!(a.octets(), [8, 8, 8, 8]),
        _ => panic!("an A payload"),
    }
    let (msg, at) = message_with(&[2, 110, 115, 0xC0, 0]);
    match RecordData::decode(&msg, at, 5, 2).unwrap() {
        RecordData::NS(n) => assert_eq!(n.nsdname.get_string().unwrap(), "ns.com"),
        _ => panic!("an NS payload"),
    }
    match RecordData::decode(&msg, at, 5, 5).unwrap() {
        RecordData::CNAME(n) => assert_eq!(n.name.get_string().unwrap(), "ns.com"),
        _ => panic!("a CNAME payload"),
    }
    match RecordData::decode(&msg, at, 5, 12).unwrap() {
        RecordData::PTR(n) => assert_eq!(n.get_string().unwrap(), "ns.com"),
        _ => panic!("a PTR payload"),
    }
    let (msg, at) = message_with(&[0x01, 0x02, 2, 109, 120, 0xC0, 0]);
    match RecordData::decode(&msg, at, 7, 15).unwrap() {
        RecordData::MX(m) => {
            assert_eq!(m.preference, 0x0102);
            assert_eq!(m.exchange.get_string().unwrap(), "mx.com");
        }
        _ => panic!("an MX payload"),
    }
    let (msg, at) = message_with(&[2, 104, 105, 0, 3, 97, 98, 99]);
    match RecordData::decode(&msg, at, 8, 16).unwrap() {
        RecordData::TXT(t) => assert_eq!(t, vec![b"hi".to_vec(), vec![], b"abc".to_vec()]),
        _ => panic!("a TXT payload"),
    }
    let (msg, at) = message_with(&[3, 120, 56, 54, 5, 76, 105, 110, 117, 120]);
    match RecordData::decode(&msg, at, 10, 13).unwrap() {
        RecordData::HINFO { cpu, os } => {
            assert_eq!(cpu, b"x86".to_vec());
            assert_eq!(os, b"Linux".to_vec());
        }
        _ => panic!("an HINFO payload"),
    }
    let mut soa: Vec<u8> = vec![2, 110, 115, 0xC0, 0, 4, 114, 111, 111, 116, 0xC0, 0];
    soa.extend_from_slice(&[0x78, 0x56, 0x34, 0x12]);
    soa.extend_from_slice(&[0, 0, 0x1C, 0x20]);
    soa.extend_from_slice(&[0, 0, 0x0E, 0x10]);
    soa.extend_from_slice(&[0, 0x09, 0x3A, 0x80]);
    soa.extend_from_slice(&[0, 0, 0, 60]);
    let (msg, at) = message_with(&soa);
    match RecordData::decode(&msg, at, soa.len(), 6).unwrap() {
        RecordData::SOA { mname, rname, serial, refresh, retry, expire, minimum } => {
            assert_eq!(mname.get_string().unwrap(), "ns.com");
            assert_eq!(rname.get_string().unwrap(), "root.com");
            assert_eq!(serial, 0x78563412);
            assert_eq!(refresh, 7200);
            assert_eq!(retry, 3600);
            assert_eq!(expire, 604800);
            assert_eq!(minimum, 60);
        }
        _ => panic!("an SOA payload"),
    }
    let mut aaaa: Vec<u8> = vec![0x20, 0x01, 0x48, 0x60, 0x48, 0x60, 0, 0, 0, 0, 0, 0, 0, 0, 0x88, 0x88];
    let (msg, at) = message_with(&aaaa);
    match RecordData::decode(&msg, at, 16, 28).unwrap() {
        RecordData::AAAA(a) => {
            assert_eq!(a.groups(), [0x2001, 0x4860, 0x4860, 0, 0, 0, 0, 0x8888])
        }
        _ => panic!("an AAAA payload"),
    }
    aaaa.truncate(0);
}

#[test]
fn unknown_type_keeps_its_bytes() {
    let (msg, at) = message_with(&[1, 2, 3, 4, 5, 6, 7]);
    match RecordData::decode(&msg, at, 7, 4711).unwrap() {
        RecordData::Unknown(code, raw) => {
            assert_eq!(code, 4711);
            assert_eq!(raw, vec![1, 2, 3, 4, 5, 6, 7]);
        }
        _ => panic!("a payload without a shape"),
    }
    match RecordData::decode(&msg, at, 0, 99).unwrap() {
        RecordData::Unknown(code, raw) => {
            assert_eq!(code, 99);
            assert!(raw.is_empty());
        }
        _ => panic!("a payload without a shape"),
    }
    match RecordData::decode(&msg, at, 3, 14).unwrap() {
        RecordData::Unknown(code, raw) => {
            assert_eq!(code, 14);
            assert_eq!(raw, vec![1, 2, 3]);
        }
        _ => panic!("a payload without a shape"),
    }
}

#[test]
fn payload_has_to_fill_its_length() {
    let mismatch = Some(DnsError::RdataLengthMismatch);
    let (msg, at) = message_with(&[8, 8, 8, 8, 8]);
    assert_eq!(RecordData::decode(&msg, at, 5, 1).err(), mismatch);
    assert_eq!(RecordData::decode(&msg, at, 3, 1).err(), mismatch);
    assert_eq!(RecordData::decode(&msg, at, 0, 1).err(), mismatch);
    assert_eq!(RecordData::decode(&msg, at, 5, 28).err(), mismatch);
    assert_eq!(RecordData::decode(&msg, at, 0, 16).err(), mismatch);
    assert_eq!(RecordData::decode(&msg, at, 1, 15).err(), mismatch);
    let (msg, at) = message_with(&[2, 110, 115, 0xC0, 0, 0]);
    assert_eq!(RecordData::decode(&msg, at, 6, 2).err(), mismatch);
    assert_eq!(RecordData::decode(&msg, at, 4, 2).err(), mismatch);
    let (msg, at) = message_with(&[2, 104, 105, 3, 97, 98]);
    assert_eq!(RecordData::decode(&msg, at, 6, 16).err(), mismatch);
    let (msg, at) = message_with(&[2, 104, 105]);
    assert_eq!(RecordData::decode(&msg, at, 3, 13).err(), mismatch);
    let (msg, at) = message_with(&[0xC0, 0x40]);
    assert_eq!(
        RecordData::decode(&msg, at, 2, 5).err(),
        Some(DnsError::InvalidDomainName(NameError::InvalidPointer))
    );
}

#[test]
fn question_bytes() {
    let q = Question::new("google.com".to_string(), None, None).unwrap();
    assert_eq!(
        q.to_bytes(),
        vec![6, 103, 111, 111, 103, 108, 101, 3, 99, 111, 109, 0, 0, 1, 0, 1]
    );
    assert_eq!(q.length(), 16);
    assert_eq!(
        q.to_string().unwrap(),
        "URI: google.com\nQType: A\nQClass: INET"
    );
    let q = Question::new("a.b".to_string(), Some(RecordType::MX), Some(QClass::CH)).unwrap();
    assert_eq!(q.to_bytes(), vec![1, 97, 1, 98, 0, 0, 15, 0, 3]);
    assert_eq!(
        Question::new(String::new(), None, None).err(),
        Some(DnsError::InvalidDomainName(NameError::EmptyName))
    );
    assert_eq!(
        Question::new("a".to_string(), Some(RecordType::UNKNOWN(17)), None).err(),
        Some(DnsError::InvalidQType(17))
    );
    assert_eq!(
        Question::new("a".to_string(), None, Some(QClass::UNKNOWN(7))).err(),
        Some(DnsError::InvalidQClass(7))
    );
}

#[test]
fn question_class_codes() {
    assert_eq!(QClass::get_bytes(QClass::INET), [0, 1]);
    assert_eq!(QClass::INET.to_bytes(), vec![0, 1]);
    assert_eq!(QClass::ANY.to_bytes(), vec![0, 255]);
    assert_eq!(QClass::from_bytes(vec![0, 1]), QClass::INET);
    assert_eq!(QClass::from_row([0, 3]), QClass::CH);
    assert_eq!(QClass::from_row([0, 4]), QClass::HS);
    assert_eq!(QClass::from_row([0, 2]), QClass::CS);
    assert_eq!(QClass::from_row([0, 255]), QClass::ANY);
    assert_eq!(QClass::from_row([7, 7]), QClass::UNKNOWN(0x0707));
    assert_eq!(QClass::from_row([0, 7]), QClass::UNKNOWN(7));
    assert_eq!(QClass::from_bytes(vec![0, 0]), QClass::UNKNOWN(0));
    assert_eq!(QClass::from_code(5), QClass::UNKNOWN(5));
    assert_eq!(QClass::UNKNOWN(7).to_bytes(), vec![0, 7]);
    assert_eq!(QClass::INET.to_string(), "INET");
}

#[test]
fn question_decodes() {
    let msg: Vec<u8> = vec![
        6, 103, 111, 111, 103, 108, 101, 3, 99, 111, 109, 0, 0, 28, 0, 1, 0xC0, 0, 0, 255, 0, 255,
    ];
    let (q, next) = Question::decode(&msg, 0).unwrap();
    assert_eq!(q.q_name.get_string().unwrap(), "google.com");
    assert_eq!(q.q_type, RecordType::AAAA);
    assert_eq!(q.q_class, QClass::INET);
    assert_eq!(next, 16);
    let (q, next) = Question::decode(&msg, 16).unwrap();
    assert_eq!(q.q_name.get_string().unwrap(), "google.com");
    assert_eq!(q.q_type, RecordType::ANY);
    assert_eq!(q.q_class, QClass::ANY);
    assert_eq!(next, 22);
    assert_eq!(
        Question::decode(&[1, 97, 0, 0, 1, 0], 0).err(),
        Some(DnsError::UnexpectedEnd)
    );
    assert_eq!(
        Question::decode(&[1, 97, 0, 0, 17, 0, 1], 0).err(),
        Some(DnsError::InvalidQType(17))
    );
    assert_eq!(
        Question::decode(&[1, 97, 0, 0, 1, 0, 9], 0).err(),
        Some(DnsError::InvalidQClass(9))
    );
    assert_eq!(
        Question::decode(&[0x41, 97, 0, 0, 1, 0, 1], 0).err(),
        Some(DnsError::InvalidDomainName(NameError::ReservedLabelKind))
    );
}

#[test]
fn payloads_are_copied_whole() {
    let (msg, at) = message_with(&[0x01, 0x02, 2, 109, 120, 0xC0, 0]);
    let mx = RecordData::decode(&msg, at, 7, 15).unwrap();
    match mx.clone() {
        RecordData::MX(m) => {
            assert_eq!(m.preference, 0x0102);
            assert_eq!(m.exchange.get_string().unwrap(), "mx.com");
        }
        _ => panic!("an MX payload"),
    }
    let (msg, at) = message_with(&[2, 104, 105, 1, 33]);
    let txt = RecordData::decode(&msg, at, 5, 16).unwrap();
    match txt.clone() {
        RecordData::TXT(t) => assert_eq!(t, vec![b"hi".to_vec(), b"!".to_vec()]),
        _ => panic!("a TXT payload"),
    }
}

#[test]
fn payloads_are_written_in_full() {
    let (msg, at) = message_with(&[0x01, 0x02, 2, 109, 120, 0xC0, 0]);
    let mx = RecordData::decode(&msg, at, 7, 15).unwrap();
    assert_eq!(mx.code(), 15);
    assert_eq!(
        mx.encode().unwrap(),
        vec![1, 2, 2, 109, 120, 3, 99, 111, 109, 0]
    );
    let (msg, at) = message_with(&[2, 110, 115, 0xC0, 0]);
    for (code, _) in [(2u16, 0), (5, 0), (12, 0)] {
        let r = RecordData::decode(&msg, at, 5, code).unwrap();
        assert_eq!(r.code(), code);
        assert_eq!(r.encode().unwrap(), vec![2, 110, 115, 3, 99, 111, 109, 0]);
    }
    let (msg, at) = message_with(&[8, 8, 4, 4]);
    let a = RecordData::decode(&msg, at, 4, 1).unwrap();
    assert_eq!(a.code(), 1);
    assert_eq!(a.encode().unwrap(), vec![8, 8, 4, 4]);
    let sixteen: Vec<u8> = (1..=16).collect();
    let (msg, at) = message_with(&sixteen);
    let aaaa = RecordData::decode(&msg, at, 16, 28).unwrap();
    assert_eq!(aaaa.code(), 28);
    assert_eq!(aaaa.encode().unwrap(), sixteen);
    let txt = RecordData::TXT(vec![b"hi".to_vec(), vec![], b"abc".to_vec()]);
    assert_eq!(txt.code(), 16);
    assert_eq!(txt.encode().unwrap(), vec![2, 104, 105, 0, 3, 97, 98, 99]);
    assert_eq!(
        RecordData::TXT(vec![]).encode().err(),
        Some(DnsError::RdataLengthMismatch)
    );
    assert_eq!(
        RecordData::TXT(vec![vec![7; 256]]).encode().err(),
        Some(DnsError::RdataLengthMismatch)
    );
    assert_eq!(RecordData::TXT(vec![vec![7; 255]]).encode().unwrap().len(), 256);
    let hinfo = RecordData::HINFO { cpu: b"x86".to_vec(), os: b"Linux".to_vec() };
    assert_eq!(hinfo.code(), 13);
    assert_eq!(
        hinfo.encode().unwrap(),
        vec![3, 120, 56, 54, 5, 76, 105, 110, 117, 120]
    );
    assert_eq!(
        RecordData::HINFO { cpu: vec![0; 256], os: vec![] }.encode().err(),
        Some(DnsError::RdataLengthMismatch)
    );
    let raw = RecordData::Unknown(10, vec![1, 2, 3]);
    assert_eq!(raw.code(), 10);
    assert_eq!(raw.encode().unwrap(), vec![1, 2, 3]);
    let mut soa: Vec<u8> = vec![2, 110, 115, 0xC0, 0, 4, 114, 111, 111, 116, 0xC0, 0];
    soa.extend_from_slice(&[0x78, 0x56, 0x34, 0x12, 0, 0, 0x1C, 0x20, 0, 0, 0x0E, 0x10]);
    soa.extend_from_slice(&[0, 0x09, 0x3A, 0x80, 0, 0, 0, 60]);
    let (msg, at) = message_with(&soa);
    let r = RecordData::decode(&msg, at, soa.len(), 6).unwrap();
    assert_eq!(r.code(), 6);
    let mut expected: Vec<u8> = vec![2, 110, 115, 3, 99, 111, 109, 0];
    expected.extend_from_slice(&[4, 114, 111, 111, 116, 3, 99, 111, 109, 0]);
    expected.extend_from_slice(&soa[12..]);
    assert_eq!(r.encode().unwrap(), expected);
}

#[test]
fn payloads_in_words() {
    assert_eq!(
        ARecord::from_bytes(vec![8, 8, 4, 4], 0).unwrap().to_string(),
        "\tIPv4: 8.8.4.4"
    );
    assert_eq!(
        ARecord::from_bytes(vec![0, 10, 199, 255], 0).unwrap().to_string(),
        "\tIPv4: 0.10.199.255"
    );
    let src: Vec<u8> = vec![6, 103, 111, 111, 103, 108, 101, 3, 99, 111, 109, 0];
    let c = CNAMERecord::from_bytes(vec![3, 97, 112, 105, 192, 0], src.clone(), 0).unwrap();
    assert_eq!(c.to_string().unwrap(), "\tName: api.google.com");
    let n = NSRecord::from_bytes(vec![2, 110, 115, 192, 7], src.clone(), 0).unwrap();
    assert_eq!(n.to_string().unwrap(), "\tNameserver: ns.com");
    let m = MXRecord::from_bytes(vec![1, 0, 4, 109, 97, 105, 108, 192, 0], src, 0).unwrap();
    assert_eq!(
        m.to_string().unwrap(),
        "\tPreference: 256\n\tExchange: mail.google.com"
    );
}

#[test]
fn payloads_from_their_parts() {
    match RecordData::from([1u8, 2, 3, 4]) {
        RecordData::A(a) => assert_eq!(a.octets(), [1, 2, 3, 4]),
        _ => panic!("an A payload"),
    }
    match RecordData::from([7u8; 16]) {
        RecordData::AAAA(a) => assert_eq!(a.groups(), [0x0707; 8]),
        _ => panic!("an AAAA payload"),
    }
    let name = askrs::dns::name::Name::from_string("mx.example".to_string()).unwrap();
    match RecordData::from((10u16, name)) {
        RecordData::MX(m) => {
            assert_eq!(m.preference, 10);
            assert_eq!(m.exchange.get_string().unwrap(), "mx.example");
        }
        _ => panic!("an MX payload"),
    }
    let txt = RecordData::from("v=spf1");
    assert_eq!(txt.encode().unwrap(), vec![6, 118, 61, 115, 112, 102, 49]);
}

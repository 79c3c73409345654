use askrs::cli::{Flags, CLI, DNSSocket};
use askrs::client::{accept_response, response_status, standard_query, ClientError};
use askrs::error::AskrsError;
use askrs::parsing::encode_query;
use askrs::ressources::DnsServer;
use askrs::wire::class::{Class, QClass, RecordClass};
use askrs::wire::error::DnsError;
use askrs::wire::header::{
    ErrorCode, HeaderBits, HeaderReadWriter, MessageHeader, Opcode, Qr, RCode,
};
use askrs::wire::name::{Label, Name, NameError};
use askrs::wire::question::Question;
use askrs::wire::rtype::{QType, RecordType, Type};

#[test]
fn header_round_trip() {
    let hrw = HeaderReadWriter::new();
    let h = hrw.encode_query(0xDEAD, Opcode::StandardQuery, true, 1);
    assert_eq!(
        h.0,
        [0xDE, 0xAD, 0x01, 0x00, 0x00, 0x01, 0x00, 0x00, 0x00, 0x00, 0x00, 0x00]
    );
    let back = MessageHeader::try_from(&h.0[..]).unwrap();
    assert_eq!(hrw.read_id(&back), 0xDEAD);
    assert_eq!(hrw.try_read_qr(&back), Ok(Qr::Query));
    assert_eq!(hrw.read_opcode(&back), Opcode::StandardQuery);
    assert!(hrw.recursion_is_desired(&back));
    assert!(!hrw.is_authoritive(&back));
    assert!(!hrw.is_truncated(&back));
    assert!(!hrw.recursion_is_available(&back));
    assert_eq!(hrw.read_rcode(&back), RCode::NoError);
    assert_eq!(hrw.read_error(&back), None);
    assert_eq!(hrw.read_qd_count(&back), 1);
    assert_eq!(hrw.read_an_count(&back), 0);
    assert_eq!(hrw.read_ns_count(&back), 0);
    assert_eq!(hrw.ar_count(&back), 0);
}

#[test]
fn query_headers_read_back() {
    let hrw = HeaderReadWriter::new();
    let ops = [
        Opcode::StandardQuery,
        Opcode::InverseQuery,
        Opcode::Status,
        Opcode::Reserved(3),
        Opcode::Reserved(15),
    ];
    for op in ops {
        for rd in [false, true] {
            for (id, qd) in [(0u16, 0u16), (0x0303, 1), (0xFFFF, 0xFFFF), (0x00FF, 0x0100)] {
                let h = hrw.encode_query(id, op, rd, qd);
                assert_eq!(hrw.read_id(&h), id);
                assert_eq!(hrw.read_opcode(&h), op);
                assert_eq!(hrw.recursion_is_desired(&h), rd);
                assert_eq!(hrw.read_qd_count(&h), qd);
                assert_eq!(hrw.try_read_qr(&h), Ok(Qr::Query));
            }
        }
    }
    let h = hrw.encode_query(1, Opcode::Reserved(15), false, 1);
    assert_eq!(h.0[2], 0b0111_1000);
}

#[test]
fn header_fields_of_a_response() {
    let hrw = HeaderReadWriter::new();
    let h = MessageHeader::from([0x12, 0x34, 0x97, 0x83, 0, 1, 0, 2, 0, 3, 0, 4]);
    assert_eq!(hrw.read_id(&h), 0x1234);
    assert_eq!(hrw.try_read_qr(&h), Ok(Qr::Response));
    assert_eq!(hrw.read_opcode(&h), Opcode::Status);
    assert!(hrw.is_authoritive(&h));
    assert!(hrw.is_truncated(&h));
    assert!(hrw.recursion_is_desired(&h));
    assert!(hrw.recursion_is_available(&h));
    assert_eq!(hrw.read_error(&h), Some(ErrorCode::NameError));
    assert_eq!(hrw.read_rcode(&h), RCode::Name);
    assert_eq!(hrw.read_qd_count(&h), 1);
    assert_eq!(hrw.read_an_count(&h), 2);
    assert_eq!(hrw.read_ns_count(&h), 3);
    assert_eq!(hrw.ar_count(&h), 4);
    let codes = [
        (0u8, RCode::NoError, None),
        (1, RCode::Format, Some(ErrorCode::FormatError)),
        (2, RCode::Server, Some(ErrorCode::ServerFailure)),
        (3, RCode::Name, Some(ErrorCode::NameError)),
        (4, RCode::NotImpl, Some(ErrorCode::NotImplemented)),
        (5, RCode::Refused, Some(ErrorCode::Refused)),
        (6, RCode::Reserved(6), None),
        (15, RCode::Reserved(15), None),
    ];
    for (bits, rcode, error) in codes {
        let h = MessageHeader::from([0, 0, 0, 0xF0 | bits, 0, 0, 0, 0, 0, 0, 0, 0]);
        assert_eq!(hrw.read_rcode(&h), rcode);
        assert_eq!(hrw.read_error(&h), error);
    }
    let h = MessageHeader::from([0, 0, 0b0101_1000, 0, 0, 0, 0, 0, 0, 0, 0, 0]);
    assert_eq!(hrw.read_opcode(&h), Opcode::Reserved(11));
}

#[test]
fn header_writers() {
    let hrw = HeaderReadWriter::new();
    let mut h = MessageHeader::empty();
    assert_eq!(h.0, [0u8; 12]);
    hrw.write_id(0xBEEF, &mut h);
    assert_eq!(h.0[0..2], [0xBE, 0xEF]);
    hrw.write_opcode(Opcode::InverseQuery, &mut h);
    assert_eq!(h.0[2], 0b0000_1000);
    hrw.write_recursion_desired(&mut h);
    assert_eq!(h.0[2], 0b0000_1001);
    hrw.write_qd_count(0x0102, &mut h);
    assert_eq!(h.0[4..6], [1, 2]);
    assert_eq!(h.0[6..12], [0u8; 6]);
    let mut buf = vec![7u8; 14];
    h.copy_into(&mut buf);
    assert_eq!(buf[0..12], h.0);
    assert_eq!(buf[12..14], [7, 7]);
    let bits = HeaderBits::new();
    assert_eq!(bits.op_range, (3, 6));
    assert_eq!(bits.err_range, (0, 3));
    assert_eq!(bits.recd_offset, 0);
    assert_eq!(u8::from(Opcode::Reserved(9)), 9);
    assert_eq!(Opcode::from(2u8), Opcode::Status);
    assert_eq!(Opcode::from(7u8), Opcode::Reserved(7));
    assert_eq!(DnsError::from(ErrorCode::Refused), DnsError::QueryError(ErrorCode::Refused));
}

#[test]
fn short_message_header_is_refused() {
    let bytes = [0u8; 11];
    assert_eq!(
        MessageHeader::try_from(&bytes[..]).err(),
        Some(DnsError::ShortHeader)
    );
    assert_eq!(MessageHeader::read(&bytes).err(), Some(DnsError::ShortHeader));
    let bytes = [5u8; 13];
    assert_eq!(MessageHeader::read(&bytes).unwrap().0, [5u8; 12]);
}

#[test]
fn classes() {
    let codes = [
        (RecordClass::IN, 1u16),
        (RecordClass::CS, 2),
        (RecordClass::CH, 3),
        (RecordClass::HS, 4),
        (RecordClass::ANY, 255),
    ];
    for (c, code) in codes {
        assert_eq!(c.code(), code);
        assert_eq!(u16::from(c), code);
        assert_eq!(RecordClass::try_from(code), Ok(c));
        assert_eq!(u16::from(QClass::from(c)), code);
        assert_eq!(QClass::try_from(code), Ok(QClass(c)));
    }
    assert_eq!(RecordClass::try_from(0u16), Err(()));
    assert_eq!(RecordClass::try_from(5u16), Err(()));
    assert_eq!(QClass::try_from(5u16), Err(DnsError::InvalidQClass(5)));
    assert_eq!(Class::try_from(RecordClass::IN), Ok(Class(RecordClass::IN)));
    assert_eq!(
        Class::try_from(RecordClass::ANY),
        Err(DnsError::InvalidClass(255))
    );
    assert_eq!(Class::try_from(3u16), Ok(Class(RecordClass::CH)));
    assert_eq!(Class::try_from(255u16), Err(DnsError::InvalidClass(255)));
    assert_eq!(Class::try_from(77u16), Err(DnsError::InvalidClass(77)));
    assert_eq!(u16::from(Class(RecordClass::HS)), 4);
}

#[test]
fn types_on_each_side() {
    assert_eq!(Type::try_from(RecordType::MX), Ok(Type(RecordType::MX)));
    assert_eq!(Type::try_from(16u16), Ok(Type(RecordType::TXT)));
    assert_eq!(Type::try_from(28u16), Ok(Type(RecordType::AAAA)));
    for (t, code) in [
        (RecordType::AXFR, 252u16),
        (RecordType::MAILB, 253),
        (RecordType::MAILA, 254),
        (RecordType::ANY, 255),
    ] {
        assert_eq!(Type::try_from(t), Err(DnsError::InvalidType(code)));
        assert_eq!(Type::try_from(code), Err(DnsError::InvalidType(code)));
        assert_eq!(QType::try_from(code), Ok(QType(t)));
        assert_eq!(u16::from(QType::from(t)), code);
    }
    assert_eq!(
        Type::try_from(RecordType::UNKNOWN(99)),
        Err(DnsError::InvalidType(99))
    );
    assert_eq!(Type::try_from(99u16), Err(DnsError::InvalidType(99)));
    assert_eq!(QType::try_from(99u16), Err(DnsError::InvalidQType(99)));
    assert_eq!(u16::from(Type(RecordType::SOA)), 6);
}

#[test]
fn dotted_names() {
    let n = Name::try_from("microsoft.com").unwrap();
    assert_eq!(n.as_str(), "microsoft.com");
    let labels = n.try_into().unwrap();
    assert_eq!(labels.len(), 3);
    assert_eq!(
        labels[0].as_bytes(),
        vec![9, 109, 105, 99, 114, 111, 115, 111, 102, 116]
    );
    assert_eq!(labels[0].byte_len(), 9);
    assert_eq!(labels[1].as_bytes(), vec![3, 99, 111, 109]);
    assert_eq!(labels[2].as_bytes(), vec![0]);
    assert_eq!(labels[2].byte_len(), 1);
    assert!(matches!(labels[2], Label::End));
    assert_eq!(Name::try_from("").err(), Some(NameError::EmptyName));
    assert_eq!(Name::check("").err(), Some(NameError::EmptyName));
    assert_eq!(Name::try_from("a.\u{fc}").err(), Some(NameError::NonAscii));
    let long = "a".repeat(64);
    assert_eq!(
        Name::try_from(long.as_str()).err(),
        Some(NameError::LabelTooLong)
    );
    let many = "ab.".repeat(90);
    assert_eq!(
        Name::try_from(many.as_str()).err(),
        Some(NameError::NameTooLong)
    );
    assert!(matches!(Label::try_from(""), Ok(Label::End)));
    assert_eq!(Label::try_from("ab").unwrap().as_bytes(), vec![2, 97, 98]);
    assert_eq!(
        Label::try_from(long.as_str()).err(),
        Some(NameError::LabelTooLong)
    );
    assert_eq!(Label::try_from("\u{fc}").err(), Some(NameError::NonAscii));
}

#[test]
fn question_over_a_dotted_name() {
    let q = Question::a_type_record(Name::try_from("google.com").unwrap());
    assert_eq!(
        q.try_to_bytes().unwrap(),
        vec![6, 103, 111, 111, 103, 108, 101, 3, 99, 111, 109, 0, 0, 1, 0, 1]
    );
    let q = Question {
        name: Name::try_from("a.b.").unwrap(),
        qtype: QType::from(RecordType::ANY),
        qclass: QClass::from(RecordClass::CH),
    };
    assert_eq!(q.try_to_bytes().unwrap(), vec![1, 97, 1, 98, 0, 0, 255, 0, 3]);
    let q = Question {
        name: Name::try_from("a").unwrap(),
        qtype: QType::from(RecordType::UNKNOWN(300)),
        qclass: QClass::from(RecordClass::IN),
    };
    assert_eq!(q.try_to_bytes().err(), Some(DnsError::InvalidQType(300)));
}

#[test]
fn query_with_an_id() {
    let q = askrs::dns::question::Question::new("google.com".to_string(), None, None).unwrap();
    assert_eq!(
        encode_query(&q, 0xDEAD, true),
        vec![
            0xDE, 0xAD, 1, 0, 0, 1, 0, 0, 0, 0, 0, 0, 6, 103, 111, 111, 103, 108, 101, 3, 99, 111,
            109, 0, 0, 1, 0, 1
        ]
    );
    assert_eq!(encode_query(&q, 7, false)[0..4], [0, 7, 0, 0]);
    let w = Question::a_type_record(Name::try_from("google.com").unwrap());
    assert_eq!(standard_query(0xDEAD, &w).unwrap(), encode_query(&q, 0xDEAD, true));
    let bad = Question {
        name: Name::try_from("a").unwrap(),
        qtype: QType::from(RecordType::UNKNOWN(300)),
        qclass: QClass::from(RecordClass::IN),
    };
    assert!(matches!(
        standard_query(1, &bad),
        Err(ClientError::ParsingError(DnsError::InvalidQType(300)))
    ));
}

#[test]
fn what_came_back() {
    let mut buf = vec![0u8; 4096];
    buf[0] = 0xAB;
    buf[13] = 0xCD;
    assert!(matches!(accept_response(&buf, 0), Err(ClientError::NoResponse)));
    assert!(matches!(
        accept_response(&buf, 11),
        Err(ClientError::ParsingError(DnsError::ShortHeader))
    ));
    let r = accept_response(&buf, 14).unwrap();
    assert_eq!(r.len(), 14);
    assert_eq!(r[0], 0xAB);
    assert_eq!(r[13], 0xCD);
    assert_eq!(accept_response(&buf, 4096).unwrap().len(), 4096);

    let ok = MessageHeader::from([0, 0, 0x81, 0x80, 0, 0, 0, 0, 0, 0, 0, 0]);
    assert_eq!(response_status(&ok), None);
    let tc = MessageHeader::from([0, 0, 0x83, 0x80, 0, 0, 0, 0, 0, 0, 0, 0]);
    assert_eq!(response_status(&tc), Some(DnsError::Truncated));
    let failed = MessageHeader::from([0, 0, 0x83, 0x82, 0, 0, 0, 0, 0, 0, 0, 0]);
    assert_eq!(
        response_status(&failed),
        Some(DnsError::QueryError(ErrorCode::ServerFailure))
    );
    let reserved = MessageHeader::from([0, 0, 0x81, 0x8A, 0, 0, 0, 0, 0, 0, 0, 0]);
    assert_eq!(response_status(&reserved), None);
}

#[test]
fn servers() {
    assert_eq!(DnsServer::GOOGLE.address(), ([8, 8, 8, 8], 53));
    assert_eq!(<([u8; 4], u16)>::from(&DnsServer::QUAD9), ([9, 9, 9, 9], 53));
    assert_eq!(
        <([u8; 4], u16)>::from(&DnsServer::Custom([10, 0, 0, 1], 5300)),
        ([10, 0, 0, 1], 5300)
    );
    assert_eq!(DnsServer::CLOUDFLARE.address(), ([1, 1, 1, 1], 53));
    assert_eq!(DnsServer::QUAD9.address(), ([9, 9, 9, 9], 53));
    assert_eq!(
        DnsServer::Custom([192, 168, 0, 1], 5353).address(),
        ([192, 168, 0, 1], 5353)
    );
    assert_eq!(DNSSocket::from_string(&"google".to_string()), DNSSocket::GOOGLE);
    assert_eq!(
        DNSSocket::from_string(&"cloudflare".to_string()),
        DNSSocket::CLOUDFLARE
    );
    assert_eq!(DNSSocket::from_string(&"quad9".to_string()), DNSSocket::QUAD9);
    assert_eq!(DNSSocket::from_string(&"else".to_string()), DNSSocket::GOOGLE);
    assert_eq!(DNSSocket::QUAD9.server().address(), ([9, 9, 9, 9], 53));
    assert_eq!(DNSSocket::GOOGLE.server().address(), ([8, 8, 8, 8], 53));
    assert_eq!(DNSSocket::CLOUDFLARE.server().address(), ([1, 1, 1, 1], 53));
}

#[test]
fn command_line() {
    let cli = CLI::new(Flags {
        uri: "google.com".to_string(),
        server: "cloudflare".to_string(),
        record: "MX".to_string(),
        rd: true,
        verbose: false,
    });
    assert_eq!(cli.flags.get_rtype(), RecordType::MX);
    assert_eq!(cli.flags.get_server(), DNSSocket::CLOUDFLARE);
    let q = cli.query(0xC0AF).unwrap();
    let (_, bytes) = cli.request(0xDEAD).unwrap();
    assert_eq!(bytes[0..2], [0xDE, 0xAD]);
    assert_eq!(bytes[2..], q.to_bytes()[2..]);
    assert_eq!(
        q.to_bytes(),
        vec![
            192, 175, 1, 0, 0, 1, 0, 0, 0, 0, 0, 0, 6, 103, 111, 111, 103, 108, 101, 3, 99, 111,
            109, 0, 0, 15, 0, 1
        ]
    );
    let response: Vec<u8> = vec![
        0xC0, 0xAF, 0x81, 0x80, 0, 1, 0, 1, 0, 0, 0, 0, 6, 103, 111, 111, 103, 108, 101, 3, 99,
        111, 109, 0, 0, 15, 0, 1, 0xC0, 12, 0, 15, 0, 1, 0, 0, 1, 0, 0, 9, 0, 10, 4, 115, 109,
        116, 112, 0xC0, 12,
    ];
    let r = cli.read_response(&response).unwrap();
    assert_eq!(r.answers.len(), 1);
    assert_eq!(r.answers[0].ttl_as_u32(), 256);
    match &r.answers[0].record {
        askrs::dns::rdata::RecordData::MX(m) => {
            assert_eq!(m.preference, 10);
            assert_eq!(m.exchange.get_string().unwrap(), "smtp.google.com");
        }
        _ => panic!("an MX payload"),
    }
    let bad = CLI::new(Flags {
        uri: String::new(),
        server: String::new(),
        record: String::new(),
        rd: false,
        verbose: true,
    });
    assert_eq!(
        bad.query(1).err(),
        Some(DnsError::InvalidDomainName(NameError::EmptyName))
    );
    assert_eq!(bad.read_response(&vec![1, 2, 3]).err(), Some(DnsError::ShortHeader));
}

#[test]
fn errors_wrap() {
    assert!(matches!(
        AskrsError::from(NameError::EmptyName),
        AskrsError::DomainNameError(NameError::EmptyName)
    ));
    assert!(matches!(
        AskrsError::from(DnsError::ShortHeader),
        AskrsError::RecordError(DnsError::ShortHeader)
    ));
    assert!(matches!(
        AskrsError::from(ClientError::NoResponse),
        AskrsError::ClientError(ClientError::NoResponse)
    ));
    assert!(matches!(
        ClientError::from(DnsError::Truncated),
        ClientError::ParsingError(DnsError::Truncated)
    ));
    let io = std::io::Error::new(std::io::ErrorKind::TimedOut, "late");
    assert!(matches!(ClientError::from(io), ClientError::IoError(_)));
}

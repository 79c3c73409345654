use askrs::dns::header::Header;
use askrs::dns::header_flags::RCODE;
use askrs::dns::question::QClass;
use askrs::dns::rdata::RecordData;
use askrs::parsing::byte_stream_parser::{ByteStream, ByteStreamParser};
use askrs::parsing::{Query, Response};
use askrs::wire::error::DnsError;
use askrs::wire::name::NameError;
use askrs::wire::rtype::RecordType;

#[test]
fn test_take_slice() {
    let data: Vec<u8> = vec![1, 2, 3, 4, 5, 6, 7, 8, 9, 10, 11, 12];
    let data_len = data.len();
    let mut parser = ByteStreamParser::new(&data);
    assert_eq!(parser.remaining_stream_len(), data_len);

    let sl = parser.take_stream_slice(3).unwrap();
    assert_eq!(sl, vec![1, 2, 3]);
    assert_eq!(parser.remaining_stream_len(), data_len - 3);
}

#[test]
fn test_pop_n() {
    let data: Vec<u8> = vec![1, 2, 3, 4, 5, 6, 7, 8, 9, 10, 11, 12];
    let mut parser = ByteStreamParser::new(&data);
    let mut taken = parser.pop_n_from_stream(3).unwrap();
    assert_eq!(taken, vec![1, 2, 3]);
    assert_eq!(parser.remaining_stream_len(), 9);
    taken = parser.pop_n_from_stream(3).unwrap();
    assert_eq!(taken, vec![4, 5, 6]);
    assert_eq!(parser.remaining_stream_len(), 6);
}

#[test]
fn test_set_stream_to_offset() {
    let data: Vec<u8> = vec![1, 2, 3, 4, 5, 6, 7, 8, 9, 10, 11, 12];
    let mut parser = ByteStreamParser::new(&data);
    parser.set_stream_to_offset(3);
    assert_eq!(9, parser.remaining_stream_len());
}

#[test]
fn test_reset_stream() {
    let data: Vec<u8> = vec![1, 2, 3, 4, 5, 6, 7, 8, 9, 10, 11, 12];
    let mut parser = ByteStreamParser::new(&data);
    parser.set_stream_to_offset(3);
    assert_eq!(9, parser.remaining_stream_len());
    parser.reset_stream();
    assert_eq!(12, parser.remaining_stream_len());
}

#[test]
fn test_parse_header() {
    let data: Vec<u8> = vec![
        0xDE, 0xAD, 0x01, 0x00, 0x00, 0x01, 0x00, 0x00, 0x00, 0x00, 0x00, 0x00,
    ];
    let mut parser = ByteStreamParser::new(&data);
    let header: Header = parser.parse_dns_header().unwrap();
    assert_eq!(parser.remaining_stream_len(), 0);
    assert_eq!(header.q_count(), 1);
}

#[test]
fn test_parse_name() {
    let data: Vec<u8> = vec![
        0x06, 0x67, 0x6F, 0x6F, 0x67, 0x6C, 0x65, 0x03, 0x63, 0x6F, 0x6D, 0x00,
    ];
    let mut parser = ByteStreamParser::new(&data);
    let name = parser.parse_name().unwrap();
    assert_eq!(parser.remaining_stream_len(), 0);
    assert_eq!(name.get_string().unwrap(), "google.com".to_string());
    assert_eq!(name.is_compressed(), false);
    assert_eq!(parser.curr_offset, 12);
}

#[test]
fn test_parse_answer() {
    let data: Vec<u8> = vec![
        6, 103, 111, 111, 103, 108, 101, 3, 99, 111, 109, 0, 0, 1, 0, 1, 0, 0, 0, 1, 0, 4, 1, 1,
        1, 1,
    ];
    let mut parser = ByteStreamParser::new(&data);
    assert!(match parser.parse_answer() {
        Ok(_) => true,
        Err(_) => false,
    });
}

#[test]
fn test_parse_answers() {
    let data: Vec<u8> = vec![
        6, 103, 111, 111, 103, 108, 101, 3, 99, 111, 109, 0, 0, 1, 0, 1, 0, 0, 0, 1, 0, 4, 1, 1,
        1, 1, 6, 103, 111, 111, 103, 108, 101, 3, 99, 111, 109, 0, 0, 1, 0, 1, 0, 0, 0, 1, 0, 4,
        1, 1, 1, 1, 6, 103, 111, 111, 103, 108, 101, 3, 99, 111, 109, 0, 0, 1, 0, 1, 0, 0, 0, 1,
        0, 4, 1, 1, 1, 1,
    ];

    let mut parser = ByteStreamParser::new(&data);
    assert!(match parser.parse_answers(3) {
        Ok(_) => true,
        Err(_) => false,
    });
}

#[test]
fn test_parse_respone() {
    let data: Vec<u8> = vec![
        0xDE, 0xAD, 0x01, 0x00, 0x00, 0x01, 0x00, 0x01, 0x00, 0x00, 0x00, 0x00, 0x06, 0x67, 0x6F,
        0x6F, 0x67, 0x6C, 0x65, 0x03, 0x63, 0x6F, 0x6D, 0x00, 0x00, 0x01, 0x00, 0x01, 192, 12, 0,
        1, 0, 1, 0, 0, 0, 1, 0, 4, 1, 1, 1, 1,
    ];
    let mut parser = ByteStreamParser::new(&data);
    let response: Response = parser.parse_response().unwrap();
    assert_eq!(response.get_bytes(), data);
    assert_eq!(response.header.id(), 0xDEAD);
    assert_eq!(response.questions.len(), 1);
    assert_eq!(response.answers.len(), 1);
    assert_eq!(response.answers[0].name.get_string().unwrap(), "google.com");
    assert_eq!(response.answers[0].ttl_as_u32(), 1);
    assert_eq!(parser.curr_offset, data.len());
}

#[test]
fn parse_answer_reads_every_field() {
    let data: Vec<u8> = vec![
        6, 103, 111, 111, 103, 108, 101, 3, 99, 111, 109, 0, 0, 1, 0, 1, 0, 0, 0, 1, 0, 4, 1, 1,
        1, 1, 7, 7,
    ];
    let mut parser = ByteStreamParser::new(&data);
    let a = parser.parse_answer().unwrap();
    assert_eq!(a.name.get_string().unwrap(), "google.com");
    assert_eq!(a.r_type, RecordType::A);
    assert_eq!(a.class, [0, 1]);
    assert_eq!(a.class_as_u16(), 1);
    assert_eq!(a.ttl, [0, 0, 0, 1]);
    assert_eq!(a.ttl_as_u32(), 1);
    assert_eq!(a.length, [0, 4]);
    assert_eq!(a.length_as_u16(), 4);
    assert_eq!(a.a_data, vec![1, 1, 1, 1]);
    match &a.record {
        RecordData::A(r) => assert_eq!(r.octets(), [1, 1, 1, 1]),
        _ => panic!("an A payload"),
    }
    assert_eq!(parser.curr_offset, 26);
    assert_eq!(parser.remaining_stream_len(), 2);
}

#[test]
fn parse_answers_counts() {
    let one: Vec<u8> = vec![1, 97, 0, 0, 1, 0, 1, 0, 0, 0, 60, 0, 4, 1, 2, 3, 4];
    let mut data = one.clone();
    data.extend_from_slice(&one);
    let mut parser = ByteStreamParser::new(&data);
    let answers = parser.parse_answers(2).unwrap();
    assert_eq!(answers.len(), 2);
    assert_eq!(parser.curr_offset, 34);
    parser.reset_stream();
    assert_eq!(parser.parse_answers(0).unwrap().len(), 0);
    assert_eq!(parser.curr_offset, 0);
    assert_eq!(
        parser.parse_answers(3).err(),
        Some(DnsError::InvalidDomainName(NameError::UnexpectedEnd))
    );
    assert_eq!(parser.curr_offset, 0);
}

fn a_record_message() -> Vec<u8> {
    vec![
        0xDE, 0xAD, 0x81, 0x80, 0x00, 0x01, 0x00, 0x01, 0x00, 0x00, 0x00, 0x00, 0x06, 0x67, 0x6F,
        0x6F, 0x67, 0x6C, 0x65, 0x03, 0x63, 0x6F, 0x6D, 0x00, 0x00, 0x01, 0x00, 0x01, 0xC0, 0x0C,
        0x00, 0x01, 0x00, 0x01, 0x00, 0x00, 0x00, 0x3C, 0x00, 0x04, 0x08, 0x08, 0x08, 0x08,
    ]
}

#[test]
fn a_record_response_decodes() {
    let data = a_record_message();
    let mut parser = ByteStreamParser::new(&data);
    let r = parser.parse_response().unwrap();
    assert!(r.header.flags().is_response());
    assert_eq!(r.header.rcode(), RCODE::NOERR);
    assert_eq!(r.header.id(), 0xDEAD);
    assert_eq!(r.questions.len(), 1);
    assert_eq!(r.questions[0].q_name.get_string().unwrap(), "google.com");
    assert_eq!(r.questions[0].q_type, RecordType::A);
    assert_eq!(r.questions[0].q_class, QClass::INET);
    assert_eq!(r.answers.len(), 1);
    assert_eq!(r.authorities.len(), 0);
    assert_eq!(r.additionals.len(), 0);
    let a = &r.answers[0];
    assert_eq!(a.name.get_string().unwrap(), "google.com");
    assert_eq!(a.r_type, RecordType::A);
    assert_eq!(a.ttl_as_u32(), 60);
    match &a.record {
        RecordData::A(rec) => assert_eq!(rec.octets(), [8, 8, 8, 8]),
        _ => panic!("an A payload"),
    }
    assert_eq!(parser.curr_offset, 44);
}

#[test]
fn answers_are_copied_whole() {
    let data = a_record_message();
    let mut parser = ByteStreamParser::new(&data);
    let r = parser.parse_response().unwrap();
    let copy = r.answers[0].clone();
    assert_eq!(copy.name.get_string().unwrap(), "google.com");
    assert_eq!(copy.r_type, RecordType::A);
    assert_eq!(copy.class, [0, 1]);
    assert_eq!(copy.ttl, [0, 0, 0, 60]);
    assert_eq!(copy.length, [0, 4]);
    assert_eq!(copy.a_data, vec![8, 8, 8, 8]);
    assert!(matches!(copy.record, RecordData::A(_)));
}

#[test]
fn bytes_behind_the_last_record_are_left_alone() {
    let mut data = a_record_message();
    data.extend_from_slice(&[0, 0, 0, 0, 0]);
    let mut parser = ByteStreamParser::new(&data);
    let r = parser.parse_response().unwrap();
    assert_eq!(r.answers.len(), 1);
    assert_eq!(parser.curr_offset, 44);
    assert_eq!(parser.remaining_stream_len(), 5);
}

#[test]
fn cursor_ends_behind_header_and_sections() {
    // One question (16 bytes), one answer (16), one authority record (18),
    // one additional record of an unknown type without payload (12).
    let mut data: Vec<u8> = vec![0, 1, 0x81, 0x80, 0, 1, 0, 1, 0, 1, 0, 1];
    data.extend_from_slice(&[6, 103, 111, 111, 103, 108, 101, 3, 99, 111, 109, 0, 0, 1, 0, 1]);
    data.extend_from_slice(&[0xC0, 12, 0, 1, 0, 1, 0, 0, 0, 60, 0, 4, 8, 8, 4, 4]);
    data.extend_from_slice(&[0xC0, 12, 0, 2, 0, 1, 0, 0, 0, 60, 0, 6, 3, 110, 115, 49, 0xC0, 12]);
    data.extend_from_slice(&[0xC0, 19, 0x12, 0x67, 0, 3, 0, 0, 0, 0, 0, 0]);
    let mut parser = ByteStreamParser::new(&data);
    let r = parser.parse_response().unwrap();
    assert_eq!(parser.curr_offset, 12 + 16 + 16 + 18 + 12);
    assert_eq!(parser.curr_offset, data.len());
    assert_eq!(r.questions.len(), 1);
    assert_eq!(r.answers.len(), 1);
    assert_eq!(r.authorities.len(), 1);
    assert_eq!(r.additionals.len(), 1);
    match &r.authorities[0].record {
        RecordData::NS(n) => assert_eq!(n.nsdname.get_string().unwrap(), "ns1.google.com"),
        _ => panic!("an NS payload"),
    }
    assert_eq!(r.additionals[0].name.get_string().unwrap(), "com");
    assert_eq!(r.additionals[0].r_type, RecordType::UNKNOWN(0x1267));
    assert_eq!(r.additionals[0].length_as_u16(), 0);
    match &r.additionals[0].record {
        RecordData::Unknown(code, raw) => {
            assert_eq!(*code, 0x1267);
            assert!(raw.is_empty());
        }
        _ => panic!("a payload without a shape"),
    }
}

#[test]
fn broken_responses_are_refused() {
    let data: Vec<u8> = vec![0; 11];
    let mut parser = ByteStreamParser::new(&data);
    assert_eq!(parser.parse_response().err(), Some(DnsError::ShortHeader));
    assert_eq!(parser.parse_dns_header().err(), Some(DnsError::ShortHeader));

    // The answer's payload is announced longer than the message.
    let mut data = a_record_message();
    data[39] = 5;
    let mut parser = ByteStreamParser::new(&data);
    assert_eq!(parser.parse_response().err(), Some(DnsError::UnexpectedEnd));
    assert_eq!(parser.curr_offset, 0);

    // An A record of five bytes.
    data.push(8);
    let mut parser = ByteStreamParser::new(&data);
    assert_eq!(
        parser.parse_response().err(),
        Some(DnsError::RdataLengthMismatch)
    );

    // A wildcard type and a wildcard class in a record.
    let mut data = a_record_message();
    data[31] = 255;
    let mut parser = ByteStreamParser::new(&data);
    assert_eq!(parser.parse_response().err(), Some(DnsError::InvalidType(255)));
    let mut data = a_record_message();
    data[33] = 255;
    let mut parser = ByteStreamParser::new(&data);
    assert_eq!(parser.parse_response().err(), Some(DnsError::InvalidClass(255)));
    let mut data = a_record_message();
    data[33] = 9;
    let mut parser = ByteStreamParser::new(&data);
    assert_eq!(parser.parse_response().err(), Some(DnsError::InvalidClass(9)));

    // Two answers announced, one present.
    let mut data = a_record_message();
    data[7] = 2;
    let mut parser = ByteStreamParser::new(&data);
    assert_eq!(
        parser.parse_response().err(),
        Some(DnsError::InvalidDomainName(NameError::UnexpectedEnd))
    );

    // The answer's name points at itself.
    let mut data = a_record_message();
    data[29] = 28;
    let mut parser = ByteStreamParser::new(&data);
    assert_eq!(
        parser.parse_response().err(),
        Some(DnsError::InvalidDomainName(NameError::InvalidPointer))
    );
}

#[test]
fn parser_reads_fail_at_the_end() {
    let data: Vec<u8> = vec![1, 2, 3];
    let mut parser = ByteStreamParser::new(&data);
    assert_eq!(parser.take_row().unwrap(), [1, 2]);
    assert_eq!(parser.take_row().err(), Some(DnsError::UnexpectedEnd));
    assert_eq!(parser.curr_offset, 2);
    assert_eq!(parser.pop_n_from_stream(2).err(), Some(DnsError::UnexpectedEnd));
    assert_eq!(parser.take_stream_slice(2).err(), Some(DnsError::UnexpectedEnd));
    assert_eq!(parser.pop_n_from_stream(1).unwrap(), vec![3]);
    assert_eq!(parser.pop_n_from_stream(0).unwrap(), Vec::<u8>::new());
    assert_eq!(parser.curr_offset, 3);
    parser.set_stream_to_offset(4);
    assert_eq!(parser.curr_offset, 0);
    parser.set_stream_to_offset(3);
    assert_eq!(parser.curr_offset, 3);
}

#[test]
fn parse_name_keeps_the_pointer() {
    let data: Vec<u8> = vec![3, 99, 111, 109, 0, 1, 97, 0xC0, 0, 0xC0, 9];
    let mut parser = ByteStreamParser::new(&data);
    parser.set_stream_to_offset(5);
    let name = parser.parse_name().unwrap();
    assert!(name.is_compressed());
    assert_eq!(parser.curr_offset, 9);
    assert_eq!(name.decompress(data.clone()).unwrap().get_string().unwrap(), "a.com");
    assert_eq!(parser.parse_name().err(), Some(NameError::InvalidPointer));
    assert_eq!(parser.curr_offset, 9);
}

#[test]
fn parse_question_moves_the_cursor() {
    let data: Vec<u8> = vec![9, 9, 1, 97, 0, 0, 15, 0, 1, 0xFF];
    let mut parser = ByteStreamParser::new(&data);
    parser.set_stream_to_offset(2);
    let q = parser.parse_question().unwrap();
    assert_eq!(q.q_type, RecordType::MX);
    assert_eq!(parser.curr_offset, 9);
    assert_eq!(
        parser.parse_question().err(),
        Some(DnsError::InvalidDomainName(NameError::UnexpectedEnd))
    );
    assert_eq!(parser.curr_offset, 9);
}

#[test]
fn byte_stream_views_the_vector() {
    let data: Vec<u8> = vec![5, 6, 7];
    let s = ByteStream::new(&data);
    assert_eq!(s.len(), 3);
    assert_eq!(s.copy_bytes(), data);
    let collected: Vec<u8> = s.get_iter().copied().collect();
    assert_eq!(collected, data);
}

#[test]
fn query_bytes() {
    let q = Query::new(0xC0AF, "google.com".to_string(), RecordType::A, true).unwrap();
    assert_eq!(
        q.to_bytes(),
        vec![
            192, 175, 1, 0, 0, 1, 0, 0, 0, 0, 0, 0, 6, 103, 111, 111, 103, 108, 101, 3, 99, 111,
            109, 0, 0, 1, 0, 1
        ]
    );
    let q = Query::new(0xC0AF, "a".to_string(), RecordType::AAAA, false).unwrap();
    assert_eq!(
        q.to_bytes(),
        vec![192, 175, 0, 0, 0, 1, 0, 0, 0, 0, 0, 0, 1, 97, 0, 0, 28, 0, 1]
    );
    let q = Query::new(0xDEAD, "google.com".to_string(), RecordType::A, true).unwrap();
    assert_eq!(q.to_bytes()[0..12], [0xDE, 0xAD, 1, 0, 0, 1, 0, 0, 0, 0, 0, 0]);
    assert_eq!(
        Query::new(7, "".to_string(), RecordType::A, true).err(),
        Some(DnsError::InvalidDomainName(NameError::EmptyName))
    );
}

#[test]
fn records_are_written_and_read_back() {
    let data = a_record_message();
    let mut parser = ByteStreamParser::new(&data);
    let r = parser.parse_response().unwrap();
    let wire = r.answers[0].encode().unwrap();
    assert_eq!(
        wire,
        vec![
            6, 103, 111, 111, 103, 108, 101, 3, 99, 111, 109, 0, 0, 1, 0, 1, 0, 0, 0, 60, 0, 4, 8,
            8, 8, 8
        ]
    );
    let mut again = ByteStreamParser::new(&wire);
    let back = again.parse_answer().unwrap();
    assert_eq!(again.curr_offset, wire.len());
    assert_eq!(back.name.get_string().unwrap(), "google.com");
    assert_eq!(back.r_type, RecordType::A);
    assert_eq!(back.ttl_as_u32(), 60);
    assert_eq!(back.a_data, vec![8, 8, 8, 8]);
    assert_eq!(back.encode().unwrap(), wire);

    let name = askrs::dns::name::Name::from_string("a.b".to_string()).unwrap();
    let raw = askrs::dns::answer::Answer::new(
        name.clone(),
        RecordType::NULL,
        [0, 3],
        [0, 0, 1, 0],
        [0, 2],
        vec![0xCA, 0xFE],
    );
    assert_eq!(
        raw.encode().unwrap(),
        vec![1, 97, 1, 98, 0, 0, 10, 0, 3, 0, 0, 1, 0, 0, 2, 0xCA, 0xFE]
    );
    let any = askrs::dns::answer::Answer::new(
        name.clone(),
        RecordType::ANY,
        [0, 1],
        [0; 4],
        [0, 0],
        vec![],
    );
    assert_eq!(any.encode().err(), Some(DnsError::InvalidType(255)));
    let unknown = askrs::dns::answer::Answer::new(
        name.clone(),
        RecordType::UNKNOWN(999),
        [0, 1],
        [0; 4],
        [0, 0],
        vec![],
    );
    assert_eq!(unknown.encode().err(), Some(DnsError::InvalidType(999)));
    let class = askrs::dns::answer::Answer::new(
        name.clone(),
        RecordType::NULL,
        [0, 255],
        [0; 4],
        [0, 0],
        vec![],
    );
    assert_eq!(class.encode().err(), Some(DnsError::InvalidClass(255)));
    let mut other = r.answers[0].clone();
    other.r_type = RecordType::MX;
    assert_eq!(other.encode().err(), Some(DnsError::InvalidType(15)));
    let long = askrs::dns::answer::Answer::new(
        name,
        RecordType::NULL,
        [0, 1],
        [0; 4],
        [0, 0],
        vec![0; 65536],
    );
    assert_eq!(long.encode().err(), Some(DnsError::RdataLengthMismatch));
}

#[test]
fn response_decodes_in_one_call() {
    let data = a_record_message();
    let r = Response::decode(&data).unwrap();
    assert_eq!(r.answers.len(), 1);
    assert_eq!(
        r.answers[0].to_string().unwrap(),
        "\tName: google.com\n\tType: A\n\tClass: 1\n\tTTL: 60\n\tLength: 4"
    );
    assert_eq!(Response::decode(&vec![0; 5]).err(), Some(DnsError::ShortHeader));
}

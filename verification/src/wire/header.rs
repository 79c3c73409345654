//! The header of a message as the twelve bytes it is on the wire, and
//! the reader and writer of its fields.

use vstd::prelude::*;
use vstd::std_specs::convert::{FromSpecImpl, TryFromSpecImpl};
use byters::{
    BigEndian, BitOffset, BitRange, BitsReadableAs, ReadableBit, ReadsFromBytes, ReadsIntoBytes,
    SetableBit,
};
use crate::utility::{be16, be16_bytes};
use crate::wire::error::DnsError;

verus! {

/// Reads two octets as a big-endian number. This is
/// `byters::BigEndian::read_into_u16`, which hands the octets to
/// `u16::from_be_bytes`: the first octet is the high one.
#[verifier::external_body]
fn be_read_u16(bytes: [u8; 2]) -> (r: u16)
    ensures
        r == be16(bytes[0], bytes[1]),
{
    BigEndian::read_into_u16(bytes)
}

/// Writes a number as two big-endian octets. This is
/// `byters::BigEndian::read_from_u16`, which calls `u16::to_be_bytes`:
/// the high octet comes first.
#[verifier::external_body]
pub(crate) fn be_write_u16(n: u16) -> (r: [u8; 2])
    ensures
        r@ == be16_bytes(n),
{
    BigEndian::read_from_u16(n)
}

/// Reads the bit at offset `pos` from the least significant bit. This is
/// `byters::ReadableBit::read_bit` on a `u8`, with the offset made by
/// `byters::BitOffset::new`, which accepts the offsets 0 to 7: the byte
/// is shifted right by the offset and masked with 1.
#[verifier::external_body]
fn read_bit(byte: u8, pos: usize) -> (r: u8)
    requires
        pos <= 7,
    ensures
        r == (byte >> pos) & 1,
{
    byte.read_bit(BitOffset::<u8>::new(pos).unwrap())
}

/// Sets the bit at offset `pos` from the least significant bit. This is
/// `byters::SetableBit::set_bit` on a `u8`, with the offset made by
/// `byters::BitOffset::new`, which accepts the offsets 0 to 7: the byte
/// is or-ed with 1 shifted left by the offset.
#[verifier::external_body]
fn set_bit(byte: &mut u8, pos: usize)
    requires
        pos <= 7,
    ensures
        *final(byte) == *old(byte) | (1u8 << pos),
{
    byte.set_bit(BitOffset::<u8>::new(pos).unwrap())
}

/// The bits of `byte` from offset `start` up to and including offset
/// `end`, as a number: the byte is shifted left, within its eight bits,
/// until the bit at `end` is the highest, and then right until the bit
/// at `start` is the lowest.
pub open spec fn bits_of(byte: u8, start: usize, end: usize) -> u8 {
    (byte << ((7 - end) as usize)) >> ((7 - end + start) as usize)
}

/// Reads the bits from offset `start` up to and including offset `end`.
/// This is `byters::BitsReadableAs::<u8>::read_bits_as` on a `u8`, with
/// the range made by `byters::BitRange::new`, which accepts
/// `start < end <= 7`: the byte is shifted left by `7 - end`, which
/// drops the bits above `end`, and then right by `7 - end + start`.
#[verifier::external_body]
fn read_bits(byte: u8, start: usize, end: usize) -> (r: u8)
    requires
        start < end <= 7,
    ensures
        r == bits_of(byte, start, end),
{
    BitsReadableAs::<u8>::read_bits_as(&byte, BitRange::<u8>::new(start, end).unwrap())
}

/// Whether a message is a query or the response to one.
#[derive(Debug, Clone, Copy, PartialEq, Eq, Structural)]
pub enum Qr {
    Query,
    Response,
}

/// The kind of query a message carries.
#[derive(Debug, Clone, Copy, PartialEq, Eq, Structural)]
pub enum Opcode {
    StandardQuery,
    InverseQuery,
    Status,
    Reserved(u8),
}

/// The opcode that a number stands for.
pub open spec fn opcode_of(value: u8) -> Opcode {
    if value == 0 {
        Opcode::StandardQuery
    } else if value == 1 {
        Opcode::InverseQuery
    } else if value == 2 {
        Opcode::Status
    } else {
        Opcode::Reserved(value)
    }
}

/// The number of an opcode.
pub open spec fn opcode_code(op: Opcode) -> u8 {
    match op {
        Opcode::StandardQuery => 0,
        Opcode::InverseQuery => 1,
        Opcode::Status => 2,
        Opcode::Reserved(b) => b,
    }
}

impl From<u8> for Opcode {
    fn from(value: u8) -> (r: Opcode) {
        match value {
            0 => Opcode::StandardQuery,
            1 => Opcode::InverseQuery,
            2 => Opcode::Status,
            b => Opcode::Reserved(b),
        }
    }
}

impl FromSpecImpl<u8> for Opcode {
    open spec fn obeys_from_spec() -> bool {
        true
    }

    open spec fn from_spec(value: u8) -> Opcode {
        opcode_of(value)
    }
}

impl From<Opcode> for u8 {
    fn from(value: Opcode) -> (r: u8) {
        match value {
            Opcode::StandardQuery => 0,
            Opcode::InverseQuery => 1,
            Opcode::Status => 2,
            Opcode::Reserved(b) => b,
        }
    }
}

impl FromSpecImpl<Opcode> for u8 {
    open spec fn obeys_from_spec() -> bool {
        true
    }

    open spec fn from_spec(value: Opcode) -> u8 {
        opcode_code(value)
    }
}

/// A failure that a name server reports in the response code of a
/// header.
#[derive(Debug, Clone, Copy, PartialEq, Eq, Structural)]
pub enum ErrorCode {
    FormatError,
    ServerFailure,
    NameError,
    NotImplemented,
    Refused,
}

impl From<ErrorCode> for DnsError {
    fn from(value: ErrorCode) -> (r: DnsError) {
        DnsError::QueryError(value)
    }
}

impl FromSpecImpl<ErrorCode> for DnsError {
    open spec fn obeys_from_spec() -> bool {
        true
    }

    open spec fn from_spec(value: ErrorCode) -> DnsError {
        DnsError::QueryError(value)
    }
}

/// The response code of a header.
#[derive(Debug, Clone, Copy, PartialEq, Eq, Structural)]
pub enum RCode {
    NoError,
    Format,
    Server,
    Name,
    NotImpl,
    Refused,
    Reserved(u8),
}

/// The response code that four bits stand for.
pub open spec fn rcode_of(value: u8) -> RCode {
    if value == 0 {
        RCode::NoError
    } else if value == 1 {
        RCode::Format
    } else if value == 2 {
        RCode::Server
    } else if value == 3 {
        RCode::Name
    } else if value == 4 {
        RCode::NotImpl
    } else if value == 5 {
        RCode::Refused
    } else {
        RCode::Reserved(value)
    }
}

/// The failure that four bits of response code report, if they report
/// one of the five that have a name.
pub open spec fn error_of(value: u8) -> Option<ErrorCode> {
    if value == 1 {
        Some(ErrorCode::FormatError)
    } else if value == 2 {
        Some(ErrorCode::ServerFailure)
    } else if value == 3 {
        Some(ErrorCode::NameError)
    } else if value == 4 {
        Some(ErrorCode::NotImplemented)
    } else if value == 5 {
        Some(ErrorCode::Refused)
    } else {
        None
    }
}

/// The twelve bytes of a header:
///
/// ```text
///                                 1  1  1  1  1  1
///   0  1  2  3  4  5  6  7  8  9  0  1  2  3  4  5
/// +--+--+--+--+--+--+--+--+--+--+--+--+--+--+--+--+
/// |                      ID                       |
/// +--+--+--+--+--+--+--+--+--+--+--+--+--+--+--+--+
/// |QR|   Opcode  |AA|TC|RD|RA|   Z    |   RCODE   |
/// +--+--+--+--+--+--+--+--+--+--+--+--+--+--+--+--+
/// |                    QDCOUNT                    |
/// +--+--+--+--+--+--+--+--+--+--+--+--+--+--+--+--+
/// |                    ANCOUNT                    |
/// +--+--+--+--+--+--+--+--+--+--+--+--+--+--+--+--+
/// |                    NSCOUNT                    |
/// +--+--+--+--+--+--+--+--+--+--+--+--+--+--+--+--+
/// |                    ARCOUNT                    |
/// +--+--+--+--+--+--+--+--+--+--+--+--+--+--+--+--+
/// ```
#[derive(Debug, Clone, Copy)]
pub struct MessageHeader(pub [u8; 12]);

impl View for MessageHeader {
    type V = Seq<u8>;

    open spec fn view(&self) -> Seq<u8> {
        self.0@
    }
}

impl MessageHeader {
    /// The header with every bit clear.
    pub fn empty() -> (r: Self)
        ensures
            r@ == Seq::new(12, |i: int| 0u8),
    {
        let r = Self([0u8;12]);
        assert(r@ =~= Seq::new(12, |i: int| 0u8));
        r
    }

    /// Copies the twelve bytes to the start of `buf`.
    pub fn copy_into(&self, buf: &mut Vec<u8>)
        requires
            old(buf)@.len() >= 12,
        ensures
            final(buf)@ == self@ + old(buf)@.skip(12),
    {
        let mut i: usize = 0;
        while i < 12
            invariant
                i <= 12,
                buf@.len() == old(buf)@.len(),
                buf@.len() >= 12,
                forall|j: int| 0 <= j < i ==> buf@[j] == self.0[j],
                forall|j: int| i <= j < buf@.len() ==> buf@[j] == old(buf)@[j],
            decreases 12 - i,
        {
            buf[i] = self.0[i];
            i += 1;
        }
        assert(buf@ =~= self@ + old(buf)@.skip(12));
    }
}

impl From<[u8; 12]> for MessageHeader {
    fn from(value: [u8; 12]) -> (r: MessageHeader) {
        MessageHeader(value)
    }
}

impl FromSpecImpl<[u8; 12]> for MessageHeader {
    open spec fn obeys_from_spec() -> bool {
        true
    }

    open spec fn from_spec(value: [u8; 12]) -> MessageHeader {
        MessageHeader(value)
    }
}

impl MessageHeader {
    /// The header in the first twelve of `value`. Fewer bytes make no
    /// header.
    pub fn read(value: &[u8]) -> (r: Result<Self, DnsError>)
        ensures
            value@.len() < 12 ==> r == Err::<MessageHeader, DnsError>(DnsError::ShortHeader),
            value@.len() >= 12 ==> r is Ok && r->Ok_0@ == value@.take(12),
    {
        if value.len() < 12 {
            return Err(DnsError::ShortHeader);
        }
        let mut b: [u8; 12] = [0u8;12];
        let mut i: usize = 0;
        while i < 12
            invariant
                i <= 12,
                value@.len() >= 12,
                forall|j: int| 0 <= j < i ==> b[j] == value@[j],
            decreases 12 - i,
        {
            b[i] = value[i];
            i += 1;
        }
        assert(b@ =~= value@.take(12));
        Ok(MessageHeader(b))
    }
}

/// The header that holds the twelve bytes `bytes`.
pub open spec fn header_of(bytes: Seq<u8>) -> MessageHeader {
    choose|h: MessageHeader| h@ == bytes
}

impl<'a> TryFrom<&'a [u8]> for MessageHeader {
    type Error = DnsError;

    fn try_from(value: &'a [u8]) -> (r: Result<Self, DnsError>)
        ensures
            value@.len() < 12 ==> r == Err::<MessageHeader, DnsError>(DnsError::ShortHeader),
            value@.len() >= 12 ==> r is Ok && r->Ok_0@ == value@.take(12),
    {
        let r = MessageHeader::read(value);
        proof {
            if value@.len() >= 12 {
                let h = r->Ok_0;
                let c = header_of(value@.take(12));
                assert(h@ == value@.take(12));
                assert(c.0 =~= h.0);
            }
        }
        r
    }
}

impl<'a> TryFromSpecImpl<&'a [u8]> for MessageHeader {
    open spec fn obeys_try_from_spec() -> bool {
        true
    }

    open spec fn try_from_spec(value: &'a [u8]) -> Result<Self, DnsError> {
        if value@.len() < 12 {
            Err(DnsError::ShortHeader)
        } else {
            Ok(header_of(value@.take(12)))
        }
    }
}

/// Where the fields of the flag word stand in their octets: offsets and
/// ranges of bits, counted from the least significant bit, the ranges
/// with both ends included.
#[derive(Debug, Clone, Copy, PartialEq, Eq)]
pub struct HeaderBits {
    pub err_range: (usize, usize),
    pub op_range: (usize, usize),
    pub rec_offset: usize,
    pub qr_offset: usize,
    pub auth_offset: usize,
    pub trunc_offset: usize,
    pub recd_offset: usize,
}

impl HeaderBits {
    /// The places that the wire format gives the fields.
    pub open spec fn standard() -> HeaderBits {
        HeaderBits {
            err_range: (0, 3),
            op_range: (3, 6),
            rec_offset: 7,
            qr_offset: 7,
            auth_offset: 2,
            trunc_offset: 1,
            recd_offset: 0,
        }
    }

    pub fn new() -> (r: Self)
        ensures
            r == HeaderBits::standard(),
    {
        Self {
            err_range: (0, 3),
            op_range: (3, 6),
            rec_offset: 7,
            qr_offset: 7,
            auth_offset: 2,
            trunc_offset: 1,
            recd_offset: 0,
        }
    }
}

/// The transaction id of a header.
pub open spec fn header_id(h: Seq<u8>) -> u16 {
    be16(h[0], h[1])
}

/// The number of questions that a header counts.
pub open spec fn header_qd_count(h: Seq<u8>) -> u16 {
    be16(h[4], h[5])
}

/// The number of answers that a header counts.
pub open spec fn header_an_count(h: Seq<u8>) -> u16 {
    be16(h[6], h[7])
}

/// The number of authority records that a header counts.
pub open spec fn header_ns_count(h: Seq<u8>) -> u16 {
    be16(h[8], h[9])
}

/// The number of additional records that a header counts.
pub open spec fn header_ar_count(h: Seq<u8>) -> u16 {
    be16(h[10], h[11])
}

/// Whether a header is that of a query or of a response: the highest
/// bit of the flag word.
pub open spec fn header_qr(h: Seq<u8>) -> Qr {
    if (h[2] >> 7usize) & 1 == 0 {
        Qr::Query
    } else {
        Qr::Response
    }
}

/// The opcode of a header: the four bits below the highest of the flag
/// word.
pub open spec fn header_opcode(h: Seq<u8>) -> Opcode {
    opcode_of((h[2] >> 3usize) & 0x0F)
}

/// The authoritative-answer flag of a header.
pub open spec fn header_aa(h: Seq<u8>) -> bool {
    (h[2] >> 2usize) & 1 == 1
}

/// The truncation flag of a header.
pub open spec fn header_tc(h: Seq<u8>) -> bool {
    (h[2] >> 1usize) & 1 == 1
}

/// The recursion-desired flag of a header.
pub open spec fn header_rd(h: Seq<u8>) -> bool {
    (h[2] >> 0usize) & 1 == 1
}

/// The recursion-available flag of a header.
pub open spec fn header_ra(h: Seq<u8>) -> bool {
    (h[3] >> 7usize) & 1 == 1
}

/// The four bits of response code of a header.
pub open spec fn header_rcode_bits(h: Seq<u8>) -> u8 {
    h[3] & 0x0F
}

/// The header of a query: the id, the flag word with the opcode and,
/// where asked for, the recursion-desired bit and nothing else set, the
/// number of questions, and three counts of zero.
pub open spec fn query_header(id: u16, op: Opcode, rd: bool, qd_count: u16) -> Seq<u8> {
    be16_bytes(id) + seq![
        if rd {
            (opcode_code(op) << 3usize) | 1u8
        } else {
            opcode_code(op) << 3usize
        },
        0u8,
    ] + be16_bytes(qd_count) + seq![0u8, 0u8, 0u8, 0u8, 0u8, 0u8]
}

/// Reads and writes the fields of a `MessageHeader`.
pub struct HeaderReadWriter {
    bits: HeaderBits,
}

impl HeaderReadWriter {
    #[verifier::type_invariant]
    spec fn bits_standard(self) -> bool {
        self.bits == HeaderBits::standard()
    }

    /// The places at which this reader and writer looks for the fields
    /// of the flag word.
    pub closed spec fn places(&self) -> HeaderBits {
        self.bits
    }

    /// The reader and writer that holds the places which the wire
    /// format gives the fields of the flag word.
    pub fn new() -> (r: Self)
        ensures
            r.places() == HeaderBits::standard(),
    {
        Self { bits: HeaderBits::new() }
    }

    /// Reads the transaction id.
    pub fn read_id(&self, data: &MessageHeader) -> (r: u16)
        ensures
            r == header_id(data@),
    {
        be_read_u16([data.0[0], data.0[1]])
    }

    /// Writes the transaction id.
    pub fn write_id(&self, id: u16, data: &mut MessageHeader)
        ensures
            final(data)@ == old(data)@.update(0, be16_bytes(id)[0]).update(1, be16_bytes(id)[1]),
    {
        let b = be_write_u16(id);
        data.0[0] = b[0];
        data.0[1] = b[1];
        assert(b@[0] == be16_bytes(id)[0] && b@[1] == be16_bytes(id)[1]);
    }

    /// Reads the number of entries in the question section.
    pub fn read_qd_count(&self, data: &MessageHeader) -> (r: u16)
        ensures
            r == header_qd_count(data@),
    {
        be_read_u16([data.0[4], data.0[5]])
    }

    /// Writes the number of entries in the question section.
    pub fn write_qd_count(&self, n: u16, data: &mut MessageHeader)
        ensures
            final(data)@ == old(data)@.update(4, be16_bytes(n)[0]).update(5, be16_bytes(n)[1]),
    {
        let b = be_write_u16(n);
        data.0[4] = b[0];
        data.0[5] = b[1];
        assert(b@[0] == be16_bytes(n)[0] && b@[1] == be16_bytes(n)[1]);
    }

    /// Reads the number of resource records in the answer section.
    pub fn read_an_count(&self, data: &MessageHeader) -> (r: u16)
        ensures
            r == header_an_count(data@),
    {
        be_read_u16([data.0[6], data.0[7]])
    }

    /// Reads the number of name server records in the authority section.
    pub fn read_ns_count(&self, data: &MessageHeader) -> (r: u16)
        ensures
            r == header_ns_count(data@),
    {
        be_read_u16([data.0[8], data.0[9]])
    }

    /// Reads the number of resource records in the additional section.
    pub fn ar_count(&self, data: &MessageHeader) -> (r: u16)
        ensures
            r == header_ar_count(data@),
    {
        be_read_u16([data.0[10], data.0[11]])
    }

    /// Reads whether the message is a query or a response. One bit
    /// holds nothing but 0 or 1, so this never fails.
    pub fn try_read_qr(&self, data: &MessageHeader) -> (r: Result<Qr, DnsError>)
        ensures
            r == Ok::<Qr, DnsError>(header_qr(data@)),
    {
        proof {
            use_type_invariant(self);
        }
        let flags: u8 = data.0[2];
        let b: u8 = read_bit(flags, self.bits.qr_offset);
        assert((flags >> 7usize) & 1 <= 1) by (bit_vector);
        match b {
            0 => Ok(Qr::Query),
            1 => Ok(Qr::Response),
            b => Err(DnsError::InvalidQR(b)),
        }
    }

    /// Reads the kind of query.
    pub fn read_opcode(&self, data: &MessageHeader) -> (r: Opcode)
        ensures
            r == header_opcode(data@),
    {
        proof {
            use_type_invariant(self);
        }
        let flags: u8 = data.0[2];
        let op: u8 = read_bits(flags, self.bits.op_range.0, self.bits.op_range.1);
        assert((flags << 1usize) >> 4usize == (flags >> 3usize) & 0x0F) by (bit_vector);
        Opcode::from(op)
    }

    /// Writes the kind of query into the four opcode bits, on top of
    /// what stands there.
    pub fn write_opcode(&self, op: Opcode, data: &mut MessageHeader)
        requires
            opcode_code(op) < 16,
        ensures
            final(data)@ == old(data)@.update(2, old(data)@[2] | (opcode_code(op) << 3usize)),
    {
        let mask: u8 = u8::from(op);
        assert(mask < 16 ==> (mask << 3usize) == mask * 8) by (bit_vector);
        data.0[2] = data.0[2] | (mask << 3usize);
    }

    /// Whether the responding name server is an authority for the name.
    pub fn is_authoritive(&self, data: &MessageHeader) -> (r: bool)
        ensures
            r == header_aa(data@),
    {
        proof {
            use_type_invariant(self);
        }
        read_bit(data.0[2], self.bits.auth_offset) == 1
    }

    /// Whether the message was cut short.
    pub fn is_truncated(&self, data: &MessageHeader) -> (r: bool)
        ensures
            r == header_tc(data@),
    {
        proof {
            use_type_invariant(self);
        }
        read_bit(data.0[2], self.bits.trunc_offset) == 1
    }

    /// Whether recursion is asked for.
    pub fn recursion_is_desired(&self, data: &MessageHeader) -> (r: bool)
        ensures
            r == header_rd(data@),
    {
        proof {
            use_type_invariant(self);
        }
        read_bit(data.0[2], self.bits.recd_offset) == 1
    }

    /// Sets the recursion-desired bit.
    pub fn write_recursion_desired(&self, data: &mut MessageHeader)
        ensures
            final(data)@ == old(data)@.update(2, old(data)@[2] | 1u8),
    {
        proof {
            use_type_invariant(self);
        }
        let mut b: u8 = data.0[2];
        set_bit(&mut b, self.bits.recd_offset);
        assert(1u8 << 0usize == 1u8) by (bit_vector);
        data.0[2] = b;
    }

    /// Whether the name server offers recursion.
    pub fn recursion_is_available(&self, data: &MessageHeader) -> (r: bool)
        ensures
            r == header_ra(data@),
    {
        proof {
            use_type_invariant(self);
        }
        read_bit(data.0[3], self.bits.rec_offset) == 1
    }

    /// Reads the failure that the response reports, if it reports one
    /// of the five that have a name.
    pub fn read_error(&self, data: &MessageHeader) -> (r: Option<ErrorCode>)
        ensures
            r == error_of(header_rcode_bits(data@)),
    {
        proof {
            use_type_invariant(self);
        }
        let flags: u8 = data.0[3];
        assert((flags << 4usize) >> 4usize == flags & 0x0F) by (bit_vector);
        match read_bits(flags, self.bits.err_range.0, self.bits.err_range.1) {
            1 => Some(ErrorCode::FormatError),
            2 => Some(ErrorCode::ServerFailure),
            3 => Some(ErrorCode::NameError),
            4 => Some(ErrorCode::NotImplemented),
            5 => Some(ErrorCode::Refused),
            _ => None,
        }
    }

    /// Reads the response code.
    pub fn read_rcode(&self, data: &MessageHeader) -> (r: RCode)
        ensures
            r == rcode_of(header_rcode_bits(data@)),
    {
        proof {
            use_type_invariant(self);
        }
        let flags: u8 = data.0[3];
        assert((flags << 4usize) >> 4usize == flags & 0x0F) by (bit_vector);
        match read_bits(flags, self.bits.err_range.0, self.bits.err_range.1) {
            0 => RCode::NoError,
            1 => RCode::Format,
            2 => RCode::Server,
            3 => RCode::Name,
            4 => RCode::NotImpl,
            5 => RCode::Refused,
            b => RCode::Reserved(b),
        }
    }

    /// The header of a query: the id, the opcode, the recursion-desired
    /// bit where asked for, and the number of questions. Every other
    /// field is zero.
    pub fn encode_query(&self, id: u16, op: Opcode, rd: bool, qd_count: u16) -> (r:
        MessageHeader)
        requires
            opcode_code(op) < 16,
        ensures
            r@ == query_header(id, op, rd, qd_count),
    {
        let mut header = MessageHeader::empty();
        self.write_id(id, &mut header);
        self.write_opcode(op, &mut header);
        if rd {
            self.write_recursion_desired(&mut header);
        }
        self.write_qd_count(qd_count, &mut header);
        proof {
            let c = opcode_code(op);
            assert(0u8 | (c << 3usize) == c << 3usize) by (bit_vector);
            assert(header@ =~= query_header(id, op, rd, qd_count));
        }
        header
    }
}

/// Whether an opcode is one that the four bits of a header can hold
/// and give back: the three kinds with a name, and the reserved numbers
/// 3 to 15.
pub open spec fn opcode_valid(op: Opcode) -> bool {
    match op {
        Opcode::Reserved(n) => 3 <= n <= 15,
        _ => true,
    }
}

/// A query header reads back as what was written: for every id, valid
/// opcode, recursion flag and question count, the fields read from the
/// header of that query are these four, the message is a query, every
/// other flag is clear, the response code reports no failure, and the
/// other three counts are zero.
pub proof fn lemma_query_header_reads_back(id: u16, op: Opcode, rd: bool, qd_count: u16)
    requires
        opcode_valid(op),
    ensures
        ({
            let h = query_header(id, op, rd, qd_count);
            &&& h.len() == 12
            &&& header_id(h) == id
            &&& header_qr(h) == Qr::Query
            &&& header_opcode(h) == op
            &&& !header_aa(h)
            &&& !header_tc(h)
            &&& header_rd(h) == rd
            &&& !header_ra(h)
            &&& rcode_of(header_rcode_bits(h)) == RCode::NoError
            &&& error_of(header_rcode_bits(h)) is None
            &&& header_qd_count(h) == qd_count
            &&& header_an_count(h) == 0
            &&& header_ns_count(h) == 0
            &&& header_ar_count(h) == 0
        }),
{
    let h = query_header(id, op, rd, qd_count);
    let c: u8 = opcode_code(op);
    let f: u8 = h[2];
    let z: u8 = h[3];
    assert(z == 0u8);
    if rd {
        assert(f == (c << 3usize) | 1u8);
        assert(c < 16 && f == (c << 3usize) | 1u8 ==> (f >> 7usize) & 1 == 0 && (f >> 3usize)
            & 0x0F == c && (f >> 2usize) & 1 == 0 && (f >> 1usize) & 1 == 0 && (f >> 0usize) & 1
            == 1) by (bit_vector);
    } else {
        assert(f == c << 3usize);
        assert(c < 16 && f == c << 3usize ==> (f >> 7usize) & 1 == 0 && (f >> 3usize) & 0x0F
            == c && (f >> 2usize) & 1 == 0 && (f >> 1usize) & 1 == 0 && (f >> 0usize) & 1 == 0)
            by (bit_vector);
    }
    assert(z == 0u8 ==> (z >> 7usize) & 1 == 0 && z & 0x0F == 0) by (bit_vector);
}

} // verus!

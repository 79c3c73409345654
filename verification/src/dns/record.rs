//! The payloads of resource records, each in the shape its type gives
//! it.

use vstd::prelude::*;
use crate::dns::name::Name;
use crate::dns::name_lemmas::lemma_scan_shape;
use crate::dns::name_model::{decompressed, ends_in_pointer, render, scan_labels, LabelModel};
use crate::text::{decimal, decimal_text};
use crate::utility::{be16, read_u16};
use crate::wire::error::DnsError;
use crate::wire::name::NameError;

verus! {

/// The payload of an A record: the four octets of an IPv4 address.
#[derive(Debug, Clone, Copy)]
pub struct ARecord {
    pub fields: [u8; 4],
}

/// The payload of an AAAA record: the sixteen octets of an IPv6 address.
#[derive(Debug, Clone, Copy)]
pub struct AAAARecord {
    pub bytes: [u8; 16],
}

/// The payload of a CNAME record: the canonical name.
pub struct CNAMERecord {
    pub name: Name,
}

/// The payload of an MX record: a preference and the mail exchange.
pub struct MXRecord {
    pub preference: u16,
    pub exchange: Name,
}

/// The payload of an NS record: the name of the name server.
pub struct NSRecord {
    pub nsdname: Name,
}

impl Clone for CNAMERecord {
    fn clone(&self) -> (r: Self)
        ensures
            r.name@ == self.name@,
            r.name.compressed == self.name.compressed,
            self.name.wf() ==> r.name.wf(),
    {
        CNAMERecord { name: self.name.clone() }
    }
}

impl Clone for MXRecord {
    fn clone(&self) -> (r: Self)
        ensures
            r.preference == self.preference,
            r.exchange@ == self.exchange@,
            r.exchange.compressed == self.exchange.compressed,
            self.exchange.wf() ==> r.exchange.wf(),
    {
        MXRecord { preference: self.preference, exchange: self.exchange.clone() }
    }
}

impl Clone for NSRecord {
    fn clone(&self) -> (r: Self)
        ensures
            r.nsdname@ == self.nsdname@,
            r.nsdname.compressed == self.nsdname.compressed,
            self.nsdname.wf() ==> r.nsdname.wf(),
    {
        NSRecord { nsdname: self.nsdname.clone() }
    }
}

/// The address that fills a payload from `offset` on: the `n` bytes
/// that are left there. A payload with more or fewer bytes left is a
/// length mismatch.
pub open spec fn address_at(data: Seq<u8>, offset: int, n: int) -> Result<Seq<u8>, DnsError> {
    if offset <= data.len() && data.len() - offset == n {
        Ok(data.subrange(offset, offset + n))
    } else {
        Err(DnsError::RdataLengthMismatch)
    }
}

/// The name that fills the payload `data` from `offset` on, with a
/// closing pointer followed into the message `src`. The name's own
/// bytes have to end where the payload ends; else the length is
/// mismatched.
pub open spec fn payload_name(data: Seq<u8>, src: Seq<u8>, offset: int) -> Result<
    Seq<LabelModel>,
    DnsError,
> {
    match scan_labels(data, offset, 0) {
        Err(e) => Err(DnsError::InvalidDomainName(e)),
        Ok((ls, next)) => {
            let resolved = if ends_in_pointer(ls) {
                decompressed(ls, src)
            } else {
                Ok(ls)
            };
            match resolved {
                Err(e) => Err(DnsError::InvalidDomainName(e)),
                Ok(all) => if next != data.len() {
                    Err(DnsError::RdataLengthMismatch)
                } else {
                    Ok(all)
                },
            }
        },
    }
}

/// Reads the name at `offset` of a payload, as `payload_name` describes.
pub fn read_payload_name(data: Vec<u8>, src: Vec<u8>, offset: usize) -> (r: Result<
    Name,
    DnsError,
>)
    ensures
        match payload_name(data@, src@, offset as int) {
            Ok(ls) => r is Ok && r->Ok_0@ == ls && r->Ok_0.wf() && !r->Ok_0.compressed,
            Err(e) => r == Err::<Name, DnsError>(e),
        },
{
    let total: usize = data.len();
    let ghost bytes = data@;
    match Name::from_bytes(data, offset) {
        Err(e) => Err(DnsError::InvalidDomainName(e)),
        Ok(name) => {
            proof {
                lemma_scan_shape(bytes, offset as int, 0);
            }
            let end: usize = offset + name.get_bytes_length();
            let resolved = if name.is_compressed() {
                match name.decompress(src) {
                    Ok(full) => full,
                    Err(e) => {
                        return Err(DnsError::InvalidDomainName(e));
                    },
                }
            } else {
                name
            };
            if end != total {
                Err(DnsError::RdataLengthMismatch)
            } else {
                Ok(resolved)
            }
        },
    }
}

impl ARecord {
    /// The address that fills the payload `data` from `offset` on:
    /// exactly four bytes have to be left there.
    pub fn from_bytes(data: Vec<u8>, offset: usize) -> (r: Result<Self, DnsError>)
        ensures
            match address_at(data@, offset as int, 4) {
                Ok(b) => r is Ok && r->Ok_0.fields@ == b,
                Err(e) => r == Err::<ARecord, DnsError>(e),
            },
    {
        if offset > data.len() || data.len() - offset != 4 {
            return Err(DnsError::RdataLengthMismatch);
        }
        let mut fields: [u8; 4] = [0;4];
        let mut pos: usize = 0;
        while pos < 4
            invariant
                pos <= 4,
                offset + 4 <= data.len(),
                forall|j: int| 0 <= j < pos ==> fields[j] == data@[offset + j],
            decreases 4 - pos,
        {
            fields[pos] = data[offset + pos];
            pos += 1;
        }
        assert(fields@ =~= data@.subrange(offset as int, offset + 4));
        Ok(ARecord { fields })
    }

    /// The line that `to_string` writes.
    pub open spec fn text(&self) -> Seq<char> {
        "\tIPv4: "@ + decimal_text(self.fields[0] as nat) + "."@ + decimal_text(
            self.fields[1] as nat,
        ) + "."@ + decimal_text(self.fields[2] as nat) + "."@ + decimal_text(
            self.fields[3] as nat,
        )
    }

    /// The address in words: its four octets in decimal, with dots
    /// between them.
    pub fn to_string(&self) -> (r: String)
        ensures
            r@ == self.text(),
    {
        let mut out = "\tIPv4: ".to_owned();
        out.append(decimal(self.fields[0] as u64).as_str());
        out.append(".");
        out.append(decimal(self.fields[1] as u64).as_str());
        out.append(".");
        out.append(decimal(self.fields[2] as u64).as_str());
        out.append(".");
        out.append(decimal(self.fields[3] as u64).as_str());
        out
    }

    /// The four octets of the address, first to last.
    pub fn octets(&self) -> (r: [u8; 4])
        ensures
            r == self.fields,
    {
        self.fields
    }
}

/// The eight groups of an IPv6 address: each two octets, big-endian.
pub open spec fn groups_of(bytes: Seq<u8>) -> Seq<u16> {
    Seq::new(8, |i: int| be16(bytes[2 * i], bytes[2 * i + 1]))
}

impl AAAARecord {
    /// The address that fills the payload `data` from `offset` on:
    /// exactly sixteen bytes have to be left there.
    pub fn from_bytes(data: Vec<u8>, offset: usize) -> (r: Result<Self, DnsError>)
        ensures
            match address_at(data@, offset as int, 16) {
                Ok(b) => r is Ok && r->Ok_0.bytes@ == b,
                Err(e) => r == Err::<AAAARecord, DnsError>(e),
            },
    {
        if offset > data.len() || data.len() - offset != 16 {
            return Err(DnsError::RdataLengthMismatch);
        }
        let mut buf: [u8; 16] = [0;16];
        let mut pos: usize = 0;
        while pos < 16
            invariant
                pos <= 16,
                offset + 16 <= data.len(),
                forall|j: int| 0 <= j < pos ==> buf[j] == data@[offset + j],
            decreases 16 - pos,
        {
            buf[pos] = data[offset + pos];
            pos += 1;
        }
        assert(buf@ =~= data@.subrange(offset as int, offset + 16));
        Ok(AAAARecord { bytes: buf })
    }

    /// The eight groups of the address, first to last.
    pub fn groups(&self) -> (r: [u16; 8])
        ensures
            r@ == groups_of(self.bytes@),
    {
        let mut fields: [u16; 8] = [0;8];
        let mut pos: usize = 0;
        while pos < 8
            invariant
                pos <= 8,
                forall|j: int|
                    0 <= j < pos ==> fields[j] == be16(self.bytes[2 * j], self.bytes[2 * j + 1]),
            decreases 8 - pos,
        {
            fields[pos] = self.bytes[2 * pos] as u16 * 256 + self.bytes[2 * pos + 1] as u16;
            pos += 1;
        }
        assert(fields@ =~= groups_of(self.bytes@));
        fields
    }
}

impl CNAMERecord {
    /// The canonical name in words. A name that still ends in a pointer
    /// has no text.
    pub fn to_string(&self) -> (r: Result<String, NameError>)
        ensures
            self.name.compressed ==> r == Err::<String, NameError>(NameError::Compressed),
            !self.name.compressed ==> r is Ok && r->Ok_0@ == "\tName: "@ + render(self.name@),
    {
        match self.name.get_string() {
            Ok(name) => {
                let mut out = "\tName: ".to_owned();
                out.append(name.as_str());
                Ok(out)
            },
            Err(e) => Err(e),
        }
    }

    /// The canonical name that fills the payload `data` from `offset`
    /// on, resolved against the message `src`.
    pub fn from_bytes(data: Vec<u8>, src: Vec<u8>, offset: usize) -> (r: Result<Self, DnsError>)
        ensures
            match payload_name(data@, src@, offset as int) {
                Ok(ls) => r is Ok && r->Ok_0.name@ == ls && r->Ok_0.name.wf()
                    && !r->Ok_0.name.compressed,
                Err(e) => r == Err::<CNAMERecord, DnsError>(e),
            },
    {
        match read_payload_name(data, src, offset) {
            Ok(name) => Ok(CNAMERecord { name }),
            Err(e) => Err(e),
        }
    }
}

/// The preference and the exchange that fill the MX payload `data` from
/// `offset` on: two bytes of preference, then the name up to the
/// payload's end.
pub open spec fn mx_of(data: Seq<u8>, src: Seq<u8>, offset: int) -> Result<
    (u16, Seq<LabelModel>),
    DnsError,
> {
    if offset > data.len() || data.len() - offset < 2 {
        Err(DnsError::RdataLengthMismatch)
    } else {
        match payload_name(data, src, offset + 2) {
            Err(e) => Err(e),
            Ok(ls) => Ok((be16(data[offset], data[offset + 1]), ls)),
        }
    }
}

impl MXRecord {
    /// The preference and the mail exchange in words, one line each. A
    /// name that still ends in a pointer has no text.
    pub fn to_string(&self) -> (r: Result<String, NameError>)
        ensures
            self.exchange.compressed ==> r == Err::<String, NameError>(NameError::Compressed),
            !self.exchange.compressed ==> r is Ok && r->Ok_0@ == "\tPreference: "@
                + decimal_text(self.preference as nat) + "\n\tExchange: "@ + render(
                self.exchange@,
            ),
    {
        match self.exchange.get_string() {
            Ok(name) => {
                let mut out = "\tPreference: ".to_owned();
                out.append(decimal(self.preference as u64).as_str());
                out.append("\n\tExchange: ");
                out.append(name.as_str());
                Ok(out)
            },
            Err(e) => Err(e),
        }
    }

    /// The preference and the mail exchange that fill the payload
    /// `data` from `offset` on, the name resolved against the message
    /// `src`.
    pub fn from_bytes(data: Vec<u8>, src: Vec<u8>, offset: usize) -> (r: Result<Self, DnsError>)
        ensures
            match mx_of(data@, src@, offset as int) {
                Ok((p, ls)) => r is Ok && r->Ok_0.preference == p && r->Ok_0.exchange@ == ls
                    && r->Ok_0.exchange.wf() && !r->Ok_0.exchange.compressed,
                Err(e) => r == Err::<MXRecord, DnsError>(e),
            },
    {
        if offset > data.len() || data.len() - offset < 2 {
            return Err(DnsError::RdataLengthMismatch);
        }
        let preference = read_u16(data.as_slice(), offset);
        match read_payload_name(data, src, offset + 2) {
            Ok(exchange) => Ok(MXRecord { preference, exchange }),
            Err(e) => Err(e),
        }
    }
}

impl NSRecord {
    /// The name server in words. A name that still ends in a pointer
    /// has no text.
    pub fn to_string(&self) -> (r: Result<String, NameError>)
        ensures
            self.nsdname.compressed ==> r == Err::<String, NameError>(NameError::Compressed),
            !self.nsdname.compressed ==> r is Ok && r->Ok_0@ == "\tNameserver: "@ + render(
                self.nsdname@,
            ),
    {
        match self.nsdname.get_string() {
            Ok(name) => {
                let mut out = "\tNameserver: ".to_owned();
                out.append(name.as_str());
                Ok(out)
            },
            Err(e) => Err(e),
        }
    }

    /// The name server's name that fills the payload `data` from
    /// `offset` on, resolved against the message `src`.
    pub fn from_bytes(data: Vec<u8>, src: Vec<u8>, offset: usize) -> (r: Result<Self, DnsError>)
        ensures
            match payload_name(data@, src@, offset as int) {
                Ok(ls) => r is Ok && r->Ok_0.nsdname@ == ls && r->Ok_0.nsdname.wf()
                    && !r->Ok_0.nsdname.compressed,
                Err(e) => r == Err::<NSRecord, DnsError>(e),
            },
    {
        match read_payload_name(data, src, offset) {
            Ok(nsdname) => Ok(NSRecord { nsdname }),
            Err(e) => Err(e),
        }
    }
}

} // verus!

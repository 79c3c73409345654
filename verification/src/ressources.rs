//! The name servers a query can go to.

use vstd::prelude::*;
use vstd::std_specs::convert::FromSpecImpl;

verus! {

/// The port that name servers listen on.
pub const DNS_PORT: u16 = 53;

/// A name server: one of the well-known public resolvers, or any other
/// by the octets of its IPv4 address and its port.
#[derive(Clone, Copy, Debug)]
pub enum DnsServer {
    GOOGLE,
    CLOUDFLARE,
    QUAD9,
    Custom([u8; 4], u16),
}

/// The octets of a name server's address.
pub open spec fn server_octets(s: DnsServer) -> Seq<u8> {
    match s {
        DnsServer::GOOGLE => seq![8u8, 8u8, 8u8, 8u8],
        DnsServer::CLOUDFLARE => seq![1u8, 1u8, 1u8, 1u8],
        DnsServer::QUAD9 => seq![9u8, 9u8, 9u8, 9u8],
        DnsServer::Custom(a, _) => a@,
    }
}

/// The port of a name server.
pub open spec fn server_port(s: DnsServer) -> u16 {
    match s {
        DnsServer::Custom(_, p) => p,
        _ => DNS_PORT,
    }
}

impl DnsServer {
    /// The octets of the server's address and its port.
    pub fn address(&self) -> (r: ([u8; 4], u16))
        ensures
            r.0@ == server_octets(*self),
            r.1 == server_port(*self),
    {
        match self {
            DnsServer::GOOGLE => {
                let a: [u8; 4] = [8, 8, 8, 8];
                assert(a@ =~= seq![8u8, 8u8, 8u8, 8u8]);
                (a, DNS_PORT)
            },
            DnsServer::CLOUDFLARE => {
                let a: [u8; 4] = [1, 1, 1, 1];
                assert(a@ =~= seq![1u8, 1u8, 1u8, 1u8]);
                (a, DNS_PORT)
            },
            DnsServer::QUAD9 => {
                let a: [u8; 4] = [9, 9, 9, 9];
                assert(a@ =~= seq![9u8, 9u8, 9u8, 9u8]);
                (a, DNS_PORT)
            },
            DnsServer::Custom(a, p) => (*a, *p),
        }
    }
}

impl<'a> From<&'a DnsServer> for ([u8; 4], u16) {
    /// The octets of the server's address and its port.
    fn from(value: &'a DnsServer) -> (r: ([u8; 4], u16))
        ensures
            r.0@ == server_octets(*value),
            r.1 == server_port(*value),
    {
        value.address()
    }
}

impl<'a> FromSpecImpl<&'a DnsServer> for ([u8; 4], u16) {
    open spec fn obeys_from_spec() -> bool {
        false
    }

    open spec fn from_spec(value: &'a DnsServer) -> ([u8; 4], u16) {
        arbitrary()
    }
}

} // verus!

//! The failures of a whole lookup.

use vstd::prelude::*;
use vstd::std_specs::convert::FromSpecImpl;
use crate::client::ClientError;
use crate::wire::error::DnsError;
use crate::wire::name::NameError;

verus! {

/// Why a lookup failed: in the codec, in the name that was asked for, or
/// on the way to the name server and back.
#[derive(Debug)]
pub enum AskrsError {
    RecordError(DnsError),
    DomainNameError(NameError),
    ClientError(ClientError),
}

pub type AskrsResult<T> = Result<T, AskrsError>;

impl From<ClientError> for AskrsError {
    fn from(value: ClientError) -> (r: AskrsError) {
        AskrsError::ClientError(value)
    }
}

impl FromSpecImpl<ClientError> for AskrsError {
    open spec fn obeys_from_spec() -> bool {
        true
    }

    open spec fn from_spec(value: ClientError) -> AskrsError {
        AskrsError::ClientError(value)
    }
}

impl From<NameError> for AskrsError {
    fn from(value: NameError) -> (r: AskrsError) {
        AskrsError::DomainNameError(value)
    }
}

impl FromSpecImpl<NameError> for AskrsError {
    open spec fn obeys_from_spec() -> bool {
        true
    }

    open spec fn from_spec(value: NameError) -> AskrsError {
        AskrsError::DomainNameError(value)
    }
}

impl From<DnsError> for AskrsError {
    fn from(value: DnsError) -> (r: AskrsError) {
        AskrsError::RecordError(value)
    }
}

impl FromSpecImpl<DnsError> for AskrsError {
    open spec fn obeys_from_spec() -> bool {
        true
    }

    open spec fn from_spec(value: DnsError) -> AskrsError {
        AskrsError::RecordError(value)
    }
}

} // verus!

//! A question over labels in buffers.

use vstd::prelude::*;
use crate::packed::label::Label;
use crate::packed::qclass::QClass;
use crate::packed::qtypes::Qtype;

verus! {

/// What is asked of a name server.
pub struct DnsQuestion {
    pub name: Vec<Label>,
    pub qtype: Qtype,
    pub class: QClass,
}

impl DnsQuestion {
    pub fn new(name: Vec<Label>, qtype: Qtype, class: QClass) -> (r: Self)
        ensures
            r.name == name,
            r.qtype == qtype,
            r.class == class,
    {
        DnsQuestion { name, qtype, class }
    }
}

} // verus!

//! Labels in sixty-four-byte buffers: the first byte is the length
//! octet, the text follows.

use vstd::prelude::*;
use crate::dns::name_model::ascii_bytes;
use crate::text::{decimal, decimal_text, push_char};
use crate::utility::be16;
use crate::wire::name::NameError;

verus! {

/// The two bits that mark a compression pointer.
pub const PTR_MASK: u8 = 0b1100_0000;

/// The fourteen bits of a pointer that hold the offset.
pub const PTR_OFFSET_MASK: u16 = 0x3FFF;

/// One part of a name: the closing zero octet, a compression pointer as
/// the two octets it is on the wire, or a label in its buffer.
#[derive(Clone, Copy, Debug)]
pub enum NameFragment {
    Zero,
    Pointer(u16),
    Label([u8; 64]),
}

/// The bytes of a label buffer on the wire: the length octet and as
/// many bytes as it says.
pub open spec fn buffer_wire(content: Seq<u8>) -> Seq<u8> {
    content.take(content[0] as int + 1)
}

/// The buffer of the label for a text: the length, the bytes of the
/// text, and zeros up to the end.
pub open spec fn buffer_of(text: Seq<char>) -> Seq<u8> {
    Seq::new(
        64,
        |i: int|
            if i == 0 {
                text.len() as u8
            } else if i <= text.len() {
                text[i - 1] as u8
            } else {
                0u8
            },
    )
}

/// The buffer of the label for a text between two dots; none for a text
/// that holds more than ASCII or more than 63 bytes.
pub open spec fn label_buffer_of(text: Seq<char>) -> Result<Seq<u8>, NameError> {
    if !vstd::utf8::is_ascii_chars(text) {
        Err(NameError::NonAscii)
    } else if text.len() > 63 {
        Err(NameError::LabelTooLong)
    } else {
        Ok(buffer_of(text))
    }
}

/// Fills the buffer of the label for an ASCII text of at most 63 bytes.
pub fn fill_buffer(value: &String) -> (r: Result<[u8; 64], NameError>)
    ensures
        match label_buffer_of(value@) {
            Ok(b) => r is Ok && r->Ok_0@ == b,
            Err(e) => r == Err::<[u8; 64], NameError>(e),
        },
{
    if !value.is_ascii() {
        return Err(NameError::NonAscii);
    }
    let text = value.as_str();
    let raw = text.as_bytes();
    proof {
        vstd::string::is_ascii_spec_bytes(text);
        assert(raw@ =~= ascii_bytes(value@));
    }
    let len: usize = raw.len();
    if len > 63 {
        return Err(NameError::LabelTooLong);
    }
    let mut buf: [u8; 64] = [0u8;64];
    buf[0] = len as u8;
    let mut i: usize = 0;
    while i < len
        invariant
            i <= len <= 63,
            len == raw@.len(),
            buf[0] == len as u8,
            forall|j: int| 1 <= j <= i ==> buf[j] == raw@[j - 1],
            forall|j: int| i < j < 64 ==> buf[j] == 0,
        decreases len - i,
    {
        buf[i + 1] = raw[i];
        i += 1;
    }
    assert(buf@ =~= buffer_of(value@));
    Ok(buf)
}

impl NameFragment {
    /// The length octet of a label does not pass 63.
    pub open spec fn wf(&self) -> bool {
        match self {
            NameFragment::Label(v) => v[0] <= 63,
            _ => true,
        }
    }

    /// One for the closing octet, two for a pointer, and for a label the
    /// number of bytes of its text.
    pub fn byte_len(&self) -> (r: usize)
        ensures
            r == (match self {
                NameFragment::Zero => 1,
                NameFragment::Pointer(_) => 2,
                NameFragment::Label(v) => v[0] as int,
            }),
    {
        match self {
            NameFragment::Zero => 1,
            NameFragment::Pointer(_) => 2,
            NameFragment::Label(v) => v[0] as usize,
        }
    }

    /// The offset that a pointer names: its low fourteen bits. Zero for
    /// the other two.
    pub fn offset(&self) -> (r: usize)
        ensures
            r == (match self {
                NameFragment::Pointer(v) => (v & PTR_OFFSET_MASK) as int,
                _ => 0,
            }),
    {
        match self {
            NameFragment::Pointer(v) => (*v & PTR_OFFSET_MASK) as usize,
            _ => 0,
        }
    }

    /// The bytes of the fragment on the wire.
    pub open spec fn wire(&self) -> Seq<u8> {
        match self {
            NameFragment::Zero => seq![0u8],
            NameFragment::Pointer(v) => seq![(v >> 8usize) as u8, (v & 0x00FF) as u8],
            NameFragment::Label(v) => buffer_wire(v@),
        }
    }

    /// The fragment as it is written on the wire.
    pub fn encode(&self) -> (r: Vec<u8>)
        requires
            self.wf(),
        ensures
            r@ == self.wire(),
    {
        match self {
            NameFragment::Zero => {
                let mut buf: Vec<u8> = Vec::new();
                buf.push(0);
                buf
            },
            NameFragment::Pointer(v) => {
                let mut buf: Vec<u8> = Vec::new();
                buf.push((*v >> 8usize) as u8);
                buf.push((*v & 0x00FF) as u8);
                buf
            },
            NameFragment::Label(v) => copy_buffer(v),
        }
    }

    /// The fragment for the text between two dots. No text makes the
    /// closing octet.
    pub fn from_string(value: String) -> (r: Result<Self, NameError>)
        ensures
            value@.len() == 0 ==> r is Ok && r->Ok_0 is Zero,
            value@.len() > 0 ==> (match label_buffer_of(value@) {
                Ok(b) => r is Ok && r->Ok_0 is Label && r->Ok_0->Label_0@ == b && r->Ok_0.wf(),
                Err(e) => r == Err::<NameFragment, NameError>(e),
            }),
    {
        if value.as_str().is_empty() {
            return Ok(NameFragment::Zero);
        }
        match fill_buffer(&value) {
            Ok(buf) => Ok(NameFragment::Label(buf)),
            Err(e) => Err(e),
        }
    }
}

/// Copies the length octet of a buffer and the bytes it announces.
pub fn copy_buffer(v: &[u8; 64]) -> (r: Vec<u8>)
    requires
        v[0] <= 63,
    ensures
        r@ == buffer_wire(v@),
{
    let len: usize = v[0] as usize;
    let mut buf: Vec<u8> = Vec::new();
    let mut b: usize = 0;
    while b <= len
        invariant
            b <= len + 1,
            len == v[0],
            len <= 63,
            buf@ == v@.take(b as int),
        decreases len + 1 - b,
    {
        buf.push(v[b]);
        proof {
            assert(v@.take(b + 1) =~= v@.take(b as int).push(v@[b as int]));
        }
        b += 1;
    }
    buf
}

impl TryFrom<String> for NameFragment {
    type Error = NameError;

    fn try_from(value: String) -> (r: Result<Self, NameError>)
        ensures
            value@.len() == 0 ==> r is Ok && r->Ok_0 is Zero,
            value@.len() > 0 ==> (match label_buffer_of(value@) {
                Ok(b) => r is Ok && r->Ok_0 is Label && r->Ok_0->Label_0@ == b && r->Ok_0.wf(),
                Err(e) => r == Err::<NameFragment, NameError>(e),
            }),
    {
        NameFragment::from_string(value)
    }
}

impl vstd::std_specs::convert::TryFromSpecImpl<String> for NameFragment {
    open spec fn obeys_try_from_spec() -> bool {
        false
    }

    open spec fn try_from_spec(value: String) -> Result<Self, NameError> {
        arbitrary()
    }
}

/// A name as the run of its fragments, cut behind the first fragment
/// that closes it.
pub struct DnsName(pub Vec<NameFragment>);

/// The number of fragments up to and including the first that is no
/// label; all of them where every one is a label.
pub open spec fn closed_len(fragments: Seq<NameFragment>) -> int
    decreases fragments.len(),
{
    if fragments.len() == 0 {
        0
    } else if fragments[0] is Label {
        1 + closed_len(fragments.drop_first())
    } else {
        1
    }
}

/// Where a name closes, given that labels only stand before `k`.
pub proof fn lemma_closed_len(fragments: Seq<NameFragment>, k: int)
    requires
        0 <= k <= fragments.len(),
        forall|j: int| 0 <= j < k ==> (#[trigger] fragments[j]) is Label,
        k == fragments.len() || !(fragments[k] is Label),
    ensures
        closed_len(fragments) == (if k == fragments.len() {
            k
        } else {
            k + 1
        }),
    decreases k,
{
    if k > 0 {
        assert(fragments[0] is Label);
        assert forall|j: int| 0 <= j < k - 1 implies (#[trigger] fragments.drop_first()[j])
            is Label by {
            assert(fragments[j + 1] is Label);
        }
        lemma_closed_len(fragments.drop_first(), k - 1);
    }
}

impl DnsName {
    /// The name of the fragments up to and including the first closing
    /// octet or pointer. What follows it is dropped.
    pub fn new(fragments: Vec<NameFragment>) -> (r: Self)
        ensures
            r.0@ == fragments@.take(closed_len(fragments@)),
    {
        let mut inner: Vec<NameFragment> = Vec::new();
        let mut i: usize = 0;
        while i < fragments.len()
            invariant
                i <= fragments.len(),
                inner@ == fragments@.take(i as int),
                forall|j: int| 0 <= j < i ==> (#[trigger] fragments@[j]) is Label,
            decreases fragments.len() - i,
        {
            let f = fragments[i];
            inner.push(f);
            proof {
                assert(fragments@.take(i + 1) =~= fragments@.take(i as int).push(
                    fragments@[i as int],
                ));
            }
            match f {
                NameFragment::Label(_) => {},
                _ => {
                    proof {
                        lemma_closed_len(fragments@, i as int);
                    }
                    return DnsName(inner);
                },
            }
            i += 1;
        }
        proof {
            lemma_closed_len(fragments@, i as int);
        }
        DnsName(inner)
    }
}

/// A label, or the two octets of a pointer, in a buffer.
#[derive(Clone, Copy, Debug)]
pub struct Label {
    pub content: [u8; 64],
}

impl Label {
    /// The first octet is a length of at most 63 or marks a pointer.
    pub open spec fn wf(&self) -> bool {
        self.content[0] <= 63 || self.content[0] & PTR_MASK == PTR_MASK
    }

    /// The label that closes a name: every byte zero.
    pub fn new_zero_label() -> (r: Self)
        ensures
            forall|i: int| 0 <= i < 64 ==> r.content[i] == 0,
    {
        Label { content: [0u8;64] }
    }

    pub fn is_zero_label(&self) -> (r: bool)
        ensures
            r == (self.content[0] == 0),
    {
        self.content[0] == 0
    }

    /// Whether the two highest bits of the first octet are set.
    pub fn is_pointer(&self) -> (r: bool)
        ensures
            r == (self.content[0] & PTR_MASK == PTR_MASK),
    {
        (self.content[0] & PTR_MASK) == PTR_MASK
    }

    /// The first octet, as a number.
    pub fn len(&self) -> (r: usize)
        ensures
            r == self.content[0],
    {
        self.content[0] as usize
    }

    /// The bytes of the label on the wire: the zero octet, the two
    /// octets of a pointer, or the length octet and the text.
    pub open spec fn wire(&self) -> Seq<u8> {
        if self.content[0] == 0 {
            seq![0u8]
        } else if self.content[0] & PTR_MASK == PTR_MASK {
            seq![self.content[0], self.content[1]]
        } else {
            buffer_wire(self.content@)
        }
    }

    /// The label as it is written on the wire.
    pub fn encode(&self) -> (r: Vec<u8>)
        requires
            self.wf(),
        ensures
            r@ == self.wire(),
    {
        if self.len() == 0 {
            let mut z: Vec<u8> = Vec::new();
            z.push(0);
            return z;
        }
        if self.is_pointer() {
            let mut p: Vec<u8> = Vec::new();
            p.push(self.content[0]);
            p.push(self.content[1]);
            return p;
        }
        copy_buffer(&self.content)
    }

    /// The text that `to_string` writes.
    pub open spec fn text(&self) -> Seq<char> {
        if self.content[0] & PTR_MASK == PTR_MASK {
            "Label at offset "@ + decimal_text(be16(self.content[0], self.content[1]) as nat)
        } else {
            self.content@.subrange(1, self.content[0] as int + 1).map_values(|x: u8| x as char)
        }
    }

    /// The label in words: for a pointer the number that its two octets
    /// make, and else the text of the label, each byte as the character
    /// with that code.
    pub fn to_string(&self) -> (r: String)
        requires
            self.wf(),
        ensures
            r@ == self.text(),
    {
        if self.is_pointer() {
            let offset: u16 = self.content[0] as u16 * 256 + self.content[1] as u16;
            let mut out = "Label at offset ".to_owned();
            out.append(decimal(offset as u64).as_str());
            return out;
        }
        let len: usize = self.len();
        let mut out = String::new();
        let mut i: usize = 1;
        while i <= len
            invariant
                1 <= i <= len + 1,
                len == self.content[0],
                len <= 63,
                out@ == self.content@.subrange(1, i as int).map_values(|x: u8| x as char),
            decreases len + 1 - i,
        {
            push_char(&mut out, self.content[i] as char);
            proof {
                assert(self.content@.subrange(1, i + 1) =~= self.content@.subrange(1, i as int).push(
                    self.content@[i as int],
                ));
                assert(self.content@.subrange(1, i + 1).map_values(|x: u8| x as char)
                    =~= self.content@.subrange(1, i as int).map_values(|x: u8| x as char).push(
                    self.content@[i as int] as char,
                ));
            }
            i += 1;
        }
        out
    }

    /// The label for the text between two dots. No text makes the label
    /// that closes a name.
    pub fn from_string(value: String) -> (r: Result<Self, NameError>)
        ensures
            match label_buffer_of(value@) {
                Ok(b) => r is Ok && r->Ok_0.content@ == b && r->Ok_0.wf(),
                Err(e) => r == Err::<Label, NameError>(e),
            },
    {
        match fill_buffer(&value) {
            Ok(content) => Ok(Label { content }),
            Err(e) => Err(e),
        }
    }
}

impl TryFrom<String> for Label {
    type Error = NameError;

    fn try_from(value: String) -> (r: Result<Self, NameError>)
        ensures
            match label_buffer_of(value@) {
                Ok(b) => r is Ok && r->Ok_0.content@ == b && r->Ok_0.wf(),
                Err(e) => r == Err::<Label, NameError>(e),
            },
    {
        Label::from_string(value)
    }
}

impl vstd::std_specs::convert::TryFromSpecImpl<String> for Label {
    open spec fn obeys_try_from_spec() -> bool {
        false
    }

    open spec fn try_from_spec(value: String) -> Result<Self, NameError> {
        arbitrary()
    }
}

} // verus!

//! Dotted names as a caller writes them, and the labels they are cut into.

use vstd::prelude::*;
use vstd::std_specs::convert::TryFromSpecImpl;
use crate::dns::name::{byte_views, split_name};
use crate::dns::name_lemmas::{
    lemma_after_labels_empty, lemma_after_labels_prepend, lemma_wire_push,
};
use crate::dns::name_model::{
    after_labels, ascii_bytes, label_wire, labels_of_pieces, labels_wire, name_of_text, name_wire,
    split_terminator, LabelModel, MAX_LABEL_BYTES,
};

verus! {

/// Why a domain name was refused.
#[derive(Debug, Clone, Copy, PartialEq, Eq, Structural)]
pub enum NameError {
    /// The dotted string is empty.
    EmptyName,
    /// The name takes more than 255 bytes on the wire.
    NameTooLong,
    /// A label is longer than 63 bytes.
    LabelTooLong,
    /// A character outside ASCII.
    NonAscii,
    /// A length octet whose top two bits are `10` or `01`.
    ReservedLabelKind,
    /// A compression pointer that does not point backwards.
    InvalidPointer,
    /// More than 128 compression pointers were followed for one name.
    PointerLoop,
    /// The input ends inside the name.
    UnexpectedEnd,
    /// The name still ends in a compression pointer.
    Compressed,
    /// There is no compression pointer to follow.
    NotCompressed,
}

/// A dotted name that was checked to be one.
#[derive(Debug, Clone, Copy)]
pub struct Name<'a>(&'a str);

impl<'a> View for Name<'a> {
    type V = Seq<char>;

    closed spec fn view(&self) -> Seq<char> {
        self.0@
    }
}

impl<'a> Name<'a> {
    #[verifier::type_invariant]
    spec fn is_name(self) -> bool {
        name_of_text(self.0@) is Ok
    }

    /// The dotted text of the name.
    pub fn as_str(&self) -> (r: &'a str)
        ensures
            r@ == self@,
            name_of_text(self@) is Ok,
    {
        proof {
            use_type_invariant(self);
        }
        self.0
    }

    /// Checks a dotted text and keeps it as a name.
    pub fn check(value: &'a str) -> (r: Result<Self, NameError>)
        ensures
            match name_of_text(value@) {
                Ok(_) => r is Ok && r->Ok_0@ == value@,
                Err(e) => r == Err::<Name<'a>, NameError>(e),
            },
    {
        if value.is_empty() {
            return Err(NameError::EmptyName);
        }
        if !value.is_ascii() {
            return Err(NameError::NonAscii);
        }
        let raw = value.as_bytes();
        proof {
            vstd::string::is_ascii_spec_bytes(value);
            assert(raw@ =~= ascii_bytes(value@));
        }
        let pieces = split_name(raw);
        match cut_labels(&pieces) {
            Ok(_) => Ok(Name(value)),
            Err(e) => Err(e),
        }
    }

    /// The labels of the name, the closing one last.
    pub fn try_into(self) -> (r: Result<Vec<Label>, NameError>)
        ensures
            r is Ok,
            labels_bytes(r->Ok_0@) == name_wire(name_of_text(self@)->Ok_0),
            forall|i: int| 0 <= i < r->Ok_0@.len() ==> (#[trigger] r->Ok_0@[i]).wf(),
    {
        proof {
            use_type_invariant(self);
        }
        let raw = self.0.as_bytes();
        proof {
            vstd::string::is_ascii_spec_bytes(self.0);
            assert(raw@ =~= ascii_bytes(self.0@));
        }
        let pieces = split_name(raw);
        match cut_labels(&pieces) {
            Ok(mut labels) => {
                proof {
                    lemma_bytes_push(labels@, Label::End);
                    let pieces = split_terminator(ascii_bytes(self.0@));
                    crate::dns::name_lemmas::lemma_pieces_shape(pieces, 0);
                    let ls = name_of_text(self.0@)->Ok_0;
                    if ls.len() > 0 {
                        assert(ls.last() is Literal);
                    }
                }
                labels.push(Label::End);
                Ok(labels)
            },
            Err(e) => Err(e),
        }
    }
}

/// One label of a name as it is written: a length octet and that many
/// bytes, or the zero octet that closes a name.
#[derive(Debug)]
pub enum Label {
    Fragment(Vec<u8>),
    End,
}

impl View for Label {
    type V = Seq<u8>;

    open spec fn view(&self) -> Seq<u8> {
        match self {
            Label::Fragment(v) => v@,
            Label::End => seq![0u8],
        }
    }
}

/// The label for the text between two dots: ASCII only, at most 63
/// bytes, and no text at all makes the closing label.
pub open spec fn label_bytes_of(text: Seq<char>) -> Result<Seq<u8>, NameError> {
    if !vstd::utf8::is_ascii_chars(text) {
        Err(NameError::NonAscii)
    } else if text.len() > 63 {
        Err(NameError::LabelTooLong)
    } else {
        Ok(seq![text.len() as u8] + ascii_bytes(text))
    }
}

impl Label {
    /// A fragment holds its length octet and as many bytes as that
    /// says, at least one and at most 63.
    pub open spec fn wf(&self) -> bool {
        match self {
            Label::Fragment(v) => 2 <= v@.len() <= 64 && v@[0] == v@.len() - 1,
            Label::End => true,
        }
    }

    /// The number of bytes between the dots; 1 for the closing label.
    pub fn byte_len(&self) -> (r: usize)
        requires
            self.wf(),
        ensures
            r == (match self {
                Label::Fragment(v) => v@.len() - 1,
                Label::End => 1,
            }),
    {
        match self {
            Label::Fragment(v) => v[0] as usize,
            Label::End => 1,
        }
    }

    /// The label as it is written on the wire.
    pub fn as_bytes(&self) -> (r: &[u8])
        ensures
            r@ == self@,
    {
        match self {
            Label::Fragment(v) => v.as_slice(),
            Label::End => {
                let end: &[u8] = &[0u8];
                assert(end@ =~= seq![0u8]);
                end
            },
        }
    }

    /// The label that holds `bytes`, the text between two dots.
    pub fn of_bytes(bytes: &Vec<u8>) -> (r: Self)
        requires
            bytes@.len() <= 63,
        ensures
            r.wf(),
            r@ == label_wire(LabelModel::Literal(bytes@)),
    {
        if bytes.len() == 0 {
            assert(seq![0u8] =~= label_wire(LabelModel::Literal(bytes@)));
            return Label::End;
        }
        let mut v: Vec<u8> = Vec::new();
        v.push(bytes.len() as u8);
        crate::utility::append_bytes(&mut v, bytes);
        Label::Fragment(v)
    }
}

impl<'a> TryFrom<&'a str> for Label {
    type Error = NameError;

    fn try_from(value: &'a str) -> (r: Result<Self, NameError>)
        ensures
            match label_bytes_of(value@) {
                Ok(b) => r is Ok && r->Ok_0@ == b && r->Ok_0.wf(),
                Err(e) => r == Err::<Label, NameError>(e),
            },
    {
        if !value.is_ascii() {
            return Err(NameError::NonAscii);
        }
        let raw = value.as_bytes();
        proof {
            vstd::string::is_ascii_spec_bytes(value);
            assert(raw@ =~= ascii_bytes(value@));
        }
        if raw.len() > 63 {
            return Err(NameError::LabelTooLong);
        }
        let bytes = vstd::slice::slice_to_vec(raw);
        let l = Label::of_bytes(&bytes);
        proof {
            assert(seq![value@.len() as u8] + ascii_bytes(value@) =~= label_wire(
                LabelModel::Literal(bytes@),
            ));
        }
        Ok(l)
    }
}

impl<'a> TryFromSpecImpl<&'a str> for Label {
    open spec fn obeys_try_from_spec() -> bool {
        false
    }

    open spec fn try_from_spec(value: &'a str) -> Result<Self, NameError> {
        arbitrary()
    }
}

/// The bytes of the labels, one after the other.
pub open spec fn labels_bytes(labels: Seq<Label>) -> Seq<u8>
    decreases labels.len(),
{
    if labels.len() == 0 {
        Seq::empty()
    } else {
        labels_bytes(labels.drop_last()) + labels.last()@
    }
}

/// The bytes of labels grow by the bytes of a label put behind.
pub proof fn lemma_bytes_push(labels: Seq<Label>, l: Label)
    ensures
        labels_bytes(labels.push(l)) == labels_bytes(labels) + l@,
{
    assert(labels.push(l).drop_last() =~= labels);
}

/// Makes the labels for the pieces of a name, as `labels_of_pieces`
/// describes, each as it is written on the wire.
pub fn cut_labels(pieces: &Vec<Vec<u8>>) -> (r: Result<Vec<Label>, NameError>)
    ensures
        match labels_of_pieces(byte_views(pieces@), 0) {
            Ok(ls) => r is Ok && labels_bytes(r->Ok_0@) == labels_wire(ls) && forall|i: int|
                0 <= i < r->Ok_0@.len() ==> (#[trigger] r->Ok_0@[i]).wf(),
            Err(e) => r == Err::<Vec<Label>, NameError>(e),
        },
{
    let ghost all = byte_views(pieces@);
    let mut labels: Vec<Label> = Vec::new();
    let ghost mut models: Seq<LabelModel> = Seq::empty();
    let mut acc: usize = 0;
    let mut i: usize = 0;
    proof {
        assert(all.skip(0) =~= all);
        lemma_after_labels_empty(labels_of_pieces(all, 0));
    }
    while i < pieces.len()
        invariant
            i <= pieces.len(),
            all == byte_views(pieces@),
            acc <= MAX_LABEL_BYTES,
            labels_bytes(labels@) == labels_wire(models),
            forall|j: int| 0 <= j < labels@.len() ==> (#[trigger] labels@[j]).wf(),
            labels_of_pieces(all, 0) == after_labels(
                models,
                labels_of_pieces(all.skip(i as int), acc as int),
            ),
        decreases pieces.len() - i,
    {
        let len: usize = pieces[i].len();
        proof {
            assert(all.skip(i as int)[0] == pieces@[i as int]@);
            assert(all.skip(i as int).drop_first() =~= all.skip(i + 1));
        }
        if len > 63 {
            return Err(NameError::LabelTooLong);
        }
        if acc + len + 1 > MAX_LABEL_BYTES {
            return Err(NameError::NameTooLong);
        }
        let label = Label::of_bytes(&pieces[i]);
        proof {
            let m = LabelModel::Literal(pieces@[i as int]@);
            lemma_after_labels_prepend(models, m, labels_of_pieces(all.skip(i + 1), acc + len + 1));
            lemma_wire_push(models, m);
            lemma_bytes_push(labels@, label);
            models = models.push(m);
        }
        labels.push(label);
        acc = acc + len + 1;
        i += 1;
    }
    proof {
        assert(all.skip(i as int) =~= Seq::<Seq<u8>>::empty());
        assert(models + Seq::<LabelModel>::empty() =~= models);
    }
    Ok(labels)
}

impl<'a> TryFrom<&'a str> for Name<'a> {
    type Error = NameError;

    fn try_from(value: &'a str) -> (r: Result<Self, NameError>)
        ensures
            match name_of_text(value@) {
                Ok(_) => r is Ok && r->Ok_0@ == value@,
                Err(e) => r == Err::<Name<'a>, NameError>(e),
            },
    {
        Name::check(value)
    }
}

impl<'a> TryFromSpecImpl<&'a str> for Name<'a> {
    open spec fn obeys_try_from_spec() -> bool {
        false
    }

    open spec fn try_from_spec(value: &'a str) -> Result<Self, NameError> {
        arbitrary()
    }
}

} // verus!

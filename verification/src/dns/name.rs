//! Domain names on the wire: labels, compression pointers and the walk
//! that resolves them.

use vstd::prelude::*;
use crate::dns::name_lemmas::{
    lemma_after_empty, lemma_after_labels_empty, lemma_after_labels_prepend, lemma_after_prepend,
    lemma_first_dot, lemma_resolve_shape, lemma_scan_shape, lemma_wire_len_concat,
    lemma_wire_len_prefix, lemma_wire_len_push, lemma_wire_push,
};
use crate::dns::name_model::{
    after, after_labels, all_literal, ascii_bytes, decode_name, decompressed, ends_in_pointer,
    label_of_text, label_text, label_wire, labels_of_pieces, labels_wire, labels_wire_len,
    name_of_text, name_valid, name_wire, name_wire_len, pointed_labels, pointer_target, render,
    resolve, scan_labels, scan_name, split_dots, split_terminator, LabelModel, MAX_LABEL_BYTES,
    MAX_POINTER_HOPS,
};
use crate::text::{push_char, push_text};
use crate::utility::{append_bytes, copy_bytes};
use crate::wire::name::NameError;

verus! {

/// One label of a domain name: the bytes between two dots, or a
/// compression pointer.
pub struct Label {
    /// The first octet on the wire: the number of bytes of a literal, or
    /// the marked high octet of a pointer.
    pub length: u8,
    pub is_compressed: bool,
    /// The offset a pointer names; zero for a literal.
    pub offset: u16,
    /// What follows the first octet on the wire.
    pub bytes: Vec<u8>,
}

impl View for Label {
    type V = LabelModel;

    open spec fn view(&self) -> LabelModel {
        if self.is_compressed {
            LabelModel::Pointer(self.offset as int)
        } else {
            LabelModel::Literal(self.bytes@)
        }
    }
}

/// What each label of a sequence stands for.
pub open spec fn models(labels: Seq<Label>) -> Seq<LabelModel> {
    labels.map_values(|l: Label| l@)
}

/// Whether every label of a sequence is well formed.
pub open spec fn all_wf(labels: Seq<Label>) -> bool {
    forall|i: int| 0 <= i < labels.len() ==> (#[trigger] labels[i]).wf()
}

impl Clone for Label {
    fn clone(&self) -> (r: Self)
        ensures
            r.length == self.length,
            r.is_compressed == self.is_compressed,
            r.offset == self.offset,
            r.bytes@ == self.bytes@,
    {
        Label {
            length: self.length,
            is_compressed: self.is_compressed,
            offset: self.offset,
            bytes: copy_bytes(&self.bytes),
        }
    }
}

impl Label {
    /// A literal holds at most 63 bytes after its length octet; a pointer
    /// holds a 14-bit offset, split over its two octets.
    pub open spec fn wf(&self) -> bool {
        if self.is_compressed {
            &&& self.offset < 0x4000
            &&& self.length == 0xC0 + self.offset / 256
            &&& self.bytes@ == seq![(self.offset % 256) as u8]
        } else {
            &&& self.offset == 0
            &&& self.bytes@.len() == self.length
            &&& self.length <= 63
        }
    }

    pub fn new(length: u8, is_compressed: bool, offset: u16, bytes: Vec<u8>) -> (r: Self)
        ensures
            r.length == length,
            r.is_compressed == is_compressed,
            r.offset == offset,
            r.bytes == bytes,
    {
        Self { length, is_compressed, offset, bytes }
    }

    /// The pointer label for the two octets `first` and `second`.
    pub fn pointer(first: u8, second: u8) -> (r: Self)
        requires
            first >= 0xC0,
        ensures
            r.wf(),
            r@ == LabelModel::Pointer(pointer_target(first, second)),
    {
        let hi: u16 = (first % 64) as u16;
        let offset: u16 = hi * 256 + second as u16;
        let mut bytes: Vec<u8> = Vec::new();
        bytes.push(second);
        assert(bytes@ =~= seq![(offset % 256) as u8]);
        Self { length: first, is_compressed: true, offset, bytes }
    }

    /// The literal label that holds `bytes`.
    pub fn literal(bytes: Vec<u8>) -> (r: Self)
        requires
            bytes@.len() <= 63,
        ensures
            r.wf(),
            r@ == LabelModel::Literal(bytes@),
    {
        Self { length: bytes.len() as u8, is_compressed: false, offset: 0, bytes }
    }

    pub fn is_compressed(&self) -> (r: bool)
        ensures
            r == self.is_compressed,
    {
        self.is_compressed
    }

    pub fn offset(&self) -> (r: u16)
        ensures
            r == self.offset,
    {
        self.offset
    }

    /// The label for the text between two dots of a name.
    pub fn from_string(name: String) -> (r: Result<Self, NameError>)
        ensures
            match label_of_text(name@) {
                Ok(l) => r is Ok && r->Ok_0@ == l && r->Ok_0.wf(),
                Err(e) => r == Err::<Label, NameError>(e),
            },
    {
        if !name.is_ascii() {
            return Err(NameError::NonAscii);
        }
        let text = name.as_str();
        let raw = text.as_bytes();
        proof {
            vstd::string::is_ascii_spec_bytes(text);
            assert(raw@ =~= ascii_bytes(name@));
        }
        if raw.len() > 63 {
            return Err(NameError::LabelTooLong);
        }
        Ok(Label::literal(vstd::slice::slice_to_vec(raw)))
    }

    /// Reads the labels at the start of `data`, up to and including the
    /// first zero octet or compression pointer. No pointer is followed.
    pub fn read_labels(data: Vec<u8>) -> (r: Result<Vec<Self>, NameError>)
        ensures
            match scan_labels(data@, 0, 0) {
                Ok((ls, _)) => r is Ok && models(r->Ok_0@) == ls && all_wf(r->Ok_0@),
                Err(e) => r == Err::<Vec<Label>, NameError>(e),
            },
    {
        match scan(data.as_slice(), 0) {
            Ok((labels, _)) => Ok(labels),
            Err(e) => Err(e),
        }
    }

    /// The text of a literal; a pointer has none.
    pub fn get_string(&self) -> (r: String)
        ensures
            r@ == label_text(self@),
    {
        let mut out = String::new();
        if !self.is_compressed {
            push_text(&mut out, &self.bytes);
        }
        out
    }

    /// Follows this pointer into `data` and reads the literal labels it
    /// leads to, through every further pointer on the way.
    pub fn decompress(&self, data: Vec<u8>) -> (r: Result<Vec<Label>, NameError>)
        ensures
            match pointed_labels(self.offset, self.is_compressed, data@) {
                Ok(ls) => r is Ok && models(r->Ok_0@) == ls && all_wf(r->Ok_0@) && all_literal(
                    ls,
                ),
                Err(e) => r == Err::<Vec<Label>, NameError>(e),
            },
    {
        if self.offset as usize >= data.len() {
            return Err(NameError::UnexpectedEnd);
        }
        if !self.is_compressed {
            return Err(NameError::NotCompressed);
        }
        walk(data.as_slice(), self.offset as usize, MAX_POINTER_HOPS - 1, 0)
    }

    /// The label as it is written on the wire.
    pub fn to_bytes(&self) -> (r: Vec<u8>)
        ensures
            r@ == seq![self.length] + self.bytes@,
            self.wf() ==> r@ == label_wire(self@),
    {
        let mut res: Vec<u8> = Vec::new();
        res.push(self.length);
        let mut i: usize = 0;
        while i < self.bytes.len()
            invariant
                i <= self.bytes.len(),
                res@ == seq![self.length] + self.bytes@.take(i as int),
            decreases self.bytes.len() - i,
        {
            res.push(self.bytes[i]);
            proof {
                assert(self.bytes@.take(i + 1) =~= self.bytes@.take(i as int).push(
                    self.bytes@[i as int],
                ));
            }
            i += 1;
        }
        proof {
            assert(self.bytes@.take(i as int) =~= self.bytes@);
            if self.wf() {
                assert(seq![self.length] + self.bytes@ =~= label_wire(self@));
            }
        }
        res
    }
}

/// Reads labels from `start` on, as `scan_labels` describes.
pub fn scan(data: &[u8], start: usize) -> (r: Result<(Vec<Label>, usize), NameError>)
    ensures
        match scan_labels(data@, start as int, 0) {
            Ok((ls, next)) => r is Ok && models(r->Ok_0.0@) == ls && r->Ok_0.1 == next && all_wf(
                r->Ok_0.0@,
            ),
            Err(e) => r == Err::<(Vec<Label>, usize), NameError>(e),
        },
{
    let mut labels: Vec<Label> = Vec::new();
    let mut pos: usize = start;
    let mut acc: usize = 0;
    proof {
        assert(models(labels@) =~= Seq::<LabelModel>::empty());
        lemma_after_empty(scan_labels(data@, start as int, 0));
    }
    loop
        invariant
            acc <= MAX_LABEL_BYTES,
            all_wf(labels@),
            scan_labels(data@, start as int, 0) == after(
                models(labels@),
                scan_labels(data@, pos as int, acc as int),
            ),
        decreases data.len() - pos,
    {
        if pos >= data.len() {
            return Err(NameError::UnexpectedEnd);
        }
        let l: u8 = data[pos];
        if l == 0 {
            proof {
                assert(models(labels@) + Seq::<LabelModel>::empty() =~= models(labels@));
            }
            return Ok((labels, pos + 1));
        }
        if l >= 0xC0 {
            if pos + 1 >= data.len() {
                return Err(NameError::UnexpectedEnd);
            }
            let label = Label::pointer(l, data[pos + 1]);
            proof {
                assert(models(labels@.push(label)) =~= models(labels@) + seq![label@]);
            }
            labels.push(label);
            return Ok((labels, pos + 2));
        }
        if l >= 0x40 {
            return Err(NameError::ReservedLabelKind);
        }
        let len: usize = l as usize;
        if len > data.len() - pos - 1 {
            return Err(NameError::UnexpectedEnd);
        }
        if acc + len + 1 > MAX_LABEL_BYTES {
            return Err(NameError::NameTooLong);
        }
        let bytes = vstd::slice::slice_to_vec(
            vstd::slice::slice_subrange(data, pos + 1, pos + 1 + len),
        );
        let label = Label::literal(bytes);
        proof {
            lemma_after_prepend(
                models(labels@),
                label@,
                scan_labels(data@, pos + 1 + len, acc + len + 1),
            );
            assert(models(labels@.push(label)) =~= models(labels@).push(label@));
        }
        labels.push(label);
        pos = pos + 1 + len;
        acc = acc + len + 1;
    }
}

/// Reads the literal labels of the name at `start`, following every
/// compression pointer, as `resolve` describes.
pub fn walk(data: &[u8], start: usize, hops: usize, acc: usize) -> (r: Result<
    Vec<Label>,
    NameError,
>)
    ensures
        match resolve(data@, start as int, hops as nat, acc as int) {
            Ok(ls) => r is Ok && models(r->Ok_0@) == ls && all_wf(r->Ok_0@) && all_literal(ls),
            Err(e) => r == Err::<Vec<Label>, NameError>(e),
        },
{
    let mut labels: Vec<Label> = Vec::new();
    let mut pos: usize = start;
    let mut left: usize = hops;
    let mut used: usize = acc;
    proof {
        assert(models(labels@) =~= Seq::<LabelModel>::empty());
        lemma_after_labels_empty(resolve(data@, start as int, hops as nat, acc as int));
    }
    loop
        invariant
            all_wf(labels@),
            all_literal(models(labels@)),
            resolve(data@, start as int, hops as nat, acc as int) == after_labels(
                models(labels@),
                resolve(data@, pos as int, left as nat, used as int),
            ),
        decreases left, data.len() - pos,
    {
        if pos >= data.len() {
            return Err(NameError::UnexpectedEnd);
        }
        let l: u8 = data[pos];
        if l == 0 {
            proof {
                assert(models(labels@) + Seq::<LabelModel>::empty() =~= models(labels@));
            }
            return Ok(labels);
        }
        if l >= 0xC0 {
            if pos + 1 >= data.len() {
                return Err(NameError::UnexpectedEnd);
            }
            let target: usize = (l % 64) as usize * 256 + data[pos + 1] as usize;
            if target >= pos {
                return Err(NameError::InvalidPointer);
            }
            if left == 0 {
                return Err(NameError::PointerLoop);
            }
            pos = target;
            left = left - 1;
        } else {
            if l >= 0x40 {
                return Err(NameError::ReservedLabelKind);
            }
            let len: usize = l as usize;
            if len > data.len() - pos - 1 {
                return Err(NameError::UnexpectedEnd);
            }
            if used > MAX_LABEL_BYTES || len + 1 > MAX_LABEL_BYTES - used {
                return Err(NameError::NameTooLong);
            }
            let bytes = vstd::slice::slice_to_vec(
                vstd::slice::slice_subrange(data, pos + 1, pos + 1 + len),
            );
            let label = Label::literal(bytes);
            proof {
                lemma_after_labels_prepend(
                    models(labels@),
                    label@,
                    resolve(data@, pos + 1 + len, left as nat, used + len + 1),
                );
                assert(models(labels@.push(label)) =~= models(labels@).push(label@));
            }
            labels.push(label);
            pos = pos + 1 + len;
            used = used + len + 1;
        }
    }
}

/// A domain name: its labels in order, and whether a compression pointer
/// ends them.
pub struct Name {
    pub labels: Vec<Label>,
    pub compressed: bool,
}

impl View for Name {
    type V = Seq<LabelModel>;

    open spec fn view(&self) -> Seq<LabelModel> {
        models(self.labels@)
    }
}

impl Clone for Name {
    fn clone(&self) -> (r: Self)
        ensures
            r@ == self@,
            r.compressed == self.compressed,
            self.wf() ==> r.wf(),
    {
        Name { labels: copy_labels(&self.labels), compressed: self.compressed }
    }
}

impl Name {
    /// Every label is well formed, the flag tells whether a pointer ends
    /// the name, and the labels make a valid name.
    pub open spec fn wf(&self) -> bool {
        &&& all_wf(self.labels@)
        &&& self.compressed == ends_in_pointer(self@)
        &&& name_valid(self@)
    }

    pub fn new(labels: Vec<Label>, compressed: bool) -> (r: Self)
        ensures
            r.labels == labels,
            r.compressed == compressed,
    {
        Self { labels, compressed }
    }

    /// The name that a dotted text stands for. A closing dot adds no
    /// label.
    pub fn from_string(name: String) -> (r: Result<Self, NameError>)
        ensures
            match name_of_text(name@) {
                Ok(ls) => r is Ok && r->Ok_0@ == ls && r->Ok_0.wf() && !r->Ok_0.compressed,
                Err(e) => r == Err::<Name, NameError>(e),
            },
    {
        let text = name.as_str();
        if text.is_empty() {
            return Err(NameError::EmptyName);
        }
        if !text.is_ascii() {
            return Err(NameError::NonAscii);
        }
        let raw = text.as_bytes();
        proof {
            vstd::string::is_ascii_spec_bytes(text);
            assert(raw@ =~= ascii_bytes(name@));
        }
        let pieces = split_name(raw);
        match labels_from_pieces(&pieces) {
            Ok(labels) => {
                proof {
                    lemma_literals_valid(labels@);
                }
                Ok(Name { labels, compressed: false })
            },
            Err(e) => Err(e),
        }
    }

    pub fn is_compressed(&self) -> (r: bool)
        ensures
            r == self.compressed,
    {
        self.compressed
    }

    /// The number of bytes the name takes on the wire.
    pub fn get_bytes_length(&self) -> (r: usize)
        requires
            self.wf(),
        ensures
            r == name_wire_len(self@),
    {
        let mut len: usize = 0;
        let mut i: usize = 0;
        while i < self.labels.len()
            invariant
                self.wf(),
                i <= self.labels.len(),
                len == labels_wire_len(self@.take(i as int)),
                len <= MAX_LABEL_BYTES + 2,
            decreases self.labels.len() - i,
        {
            proof {
                lemma_wire_len_prefix(self@, i + 1);
                assert(self@.take(i + 1) =~= self@.take(i as int).push(self@[i as int]));
                lemma_wire_len_push(self@.take(i as int), self@[i as int]);
            }
            if self.labels[i].is_compressed {
                len += 2;
            } else {
                len += self.labels[i].length as usize + 1;
            }
            i += 1;
        }
        proof {
            assert(self@.take(i as int) =~= self@);
        }
        if !self.compressed {
            len += 1;
        }
        len
    }

    /// Reads the name that starts at `offset` of `data`, up to and
    /// including the first zero octet or compression pointer. No pointer
    /// is followed, and none is held to point backwards: `data` may be a
    /// part of a message.
    pub fn from_bytes(data: Vec<u8>, offset: usize) -> (r: Result<Self, NameError>)
        ensures
            match scan_labels(data@, offset as int, 0) {
                Ok((ls, _)) => r is Ok && r->Ok_0@ == ls && r->Ok_0.wf(),
                Err(e) => r == Err::<Name, NameError>(e),
            },
    {
        match scan(data.as_slice(), offset) {
            Ok((labels, _)) => {
                proof {
                    lemma_scan_shape(data@, offset as int, 0);
                }
                let compressed = labels.len() > 0 && labels[labels.len() - 1].is_compressed;
                Ok(Name { labels, compressed })
            },
            Err(e) => Err(e),
        }
    }

    /// The dotted text of the name. A name that still ends in a pointer
    /// has none.
    pub fn get_string(&self) -> (r: Result<String, NameError>)
        ensures
            self.compressed ==> r == Err::<String, NameError>(NameError::Compressed),
            !self.compressed ==> r is Ok && r->Ok_0@ == render(self@),
    {
        if self.compressed {
            return Err(NameError::Compressed);
        }
        let mut out = String::new();
        let mut i: usize = 0;
        while i < self.labels.len()
            invariant
                i <= self.labels.len(),
                out@ == render(self@.take(i as int)),
            decreases self.labels.len() - i,
        {
            proof {
                let next = self@.take(i + 1);
                assert(next.drop_last() =~= self@.take(i as int));
                assert(next.last() == self@[i as int]);
                assert(self@[i as int] == self.labels@[i as int]@);
                if i == 0 {
                    assert(render(self@.take(0)) =~= Seq::<char>::empty());
                }
            }
            if i > 0 {
                push_char(&mut out, '.');
            }
            if !self.labels[i].is_compressed {
                push_text(&mut out, &self.labels[i].bytes);
            }
            proof {
                assert(out@ =~= render(self@.take(i + 1)));
            }
            i += 1;
        }
        proof {
            assert(self@.take(i as int) =~= self@);
        }
        Ok(out)
    }

    /// The name as it is written on the wire.
    pub fn get_bytes(&self) -> (r: Vec<u8>)
        requires
            self.wf(),
        ensures
            r@ == name_wire(self@),
    {
        let mut res: Vec<u8> = Vec::new();
        let mut i: usize = 0;
        assert(labels_wire(self@.take(0)) =~= Seq::<u8>::empty());
        while i < self.labels.len()
            invariant
                self.wf(),
                i <= self.labels.len(),
                res@ == labels_wire(self@.take(i as int)),
            decreases self.labels.len() - i,
        {
            let bytes = self.labels[i].to_bytes();
            proof {
                assert(self@.take(i + 1) =~= self@.take(i as int).push(self@[i as int]));
                lemma_wire_push(self@.take(i as int), self@[i as int]);
            }
            append_bytes(&mut res, &bytes);
            i += 1;
        }
        proof {
            assert(self@.take(i as int) =~= self@);
        }
        if !self.compressed {
            res.push(0);
        }
        res
    }

    /// The name with its closing pointer followed into `data`, and every
    /// further pointer on the way: literals only.
    pub fn decompress(&self, data: Vec<u8>) -> (r: Result<Self, NameError>)
        requires
            self.wf(),
        ensures
            match decompressed(self@, data@) {
                Ok(ls) => r is Ok && r->Ok_0@ == ls && r->Ok_0.wf() && !r->Ok_0.compressed,
                Err(e) => r == Err::<Name, NameError>(e),
            },
    {
        self.expand(data.as_slice())
    }

    /// `decompress`, against a borrowed message.
    pub fn expand(&self, data: &[u8]) -> (r: Result<Self, NameError>)
        requires
            self.wf(),
        ensures
            match decompressed(self@, data@) {
                Ok(ls) => r is Ok && r->Ok_0@ == ls && r->Ok_0.wf() && !r->Ok_0.compressed,
                Err(e) => r == Err::<Name, NameError>(e),
            },
    {
        if !self.compressed {
            return Err(NameError::NotCompressed);
        }
        let last: usize = self.labels.len() - 1;
        let mut labels: Vec<Label> = Vec::new();
        let mut acc: usize = 0;
        let mut i: usize = 0;
        let ghost lits = self@.drop_last();
        while i < last
            invariant
                self.wf(),
                self.compressed,
                last == self.labels.len() - 1,
                lits == self@.drop_last(),
                i <= last,
                acc == labels_wire_len(lits.take(i as int)),
                acc <= MAX_LABEL_BYTES,
                models(labels@) == lits.take(i as int),
                all_wf(labels@),
            decreases last - i,
        {
            proof {
                lemma_wire_len_prefix(lits, i + 1);
                lemma_wire_len_push(lits, self@.last());
                assert(self@ =~= lits.push(self@.last()));
                assert(lits.take(i + 1) =~= lits.take(i as int).push(lits[i as int]));
                lemma_wire_len_push(lits.take(i as int), lits[i as int]);
                assert(lits[i as int] == self@[i as int]);
                assert(self@[i as int] is Literal);
            }
            let l = self.labels[i].clone();
            proof {
                assert(models(labels@.push(l)) =~= models(labels@).push(l@));
            }
            acc += l.length as usize + 1;
            labels.push(l);
            i += 1;
        }
        proof {
            assert(lits.take(i as int) =~= lits);
            assert(self@.last() == self.labels@[last as int]@);
        }
        match walk(data, self.labels[last].offset as usize, MAX_POINTER_HOPS - 1, acc) {
            Ok(mut rest) => {
                proof {
                    lemma_resolve_shape(
                        data@,
                        self.labels[last as int].offset as int,
                        (MAX_POINTER_HOPS - 1) as nat,
                        acc as int,
                    );
                    lemma_wire_len_concat(lits, models(rest@));
                    assert(models(labels@ + rest@) =~= lits + models(rest@));
                }
                labels.append(&mut rest);
                proof {
                    lemma_literals_valid(labels@);
                }
                Ok(Name { labels, compressed: false })
            },
            Err(e) => Err(e),
        }
    }

    /// The wire bytes of the name that a dotted text stands for: each
    /// label with its length octet, and the closing zero octet. No
    /// compression pointer is written.
    pub fn encode(name: &str) -> (r: Result<Vec<u8>, NameError>)
        ensures
            match name_of_text(name@) {
                Ok(ls) => r is Ok && r->Ok_0@ == name_wire(ls),
                Err(e) => r == Err::<Vec<u8>, NameError>(e),
            },
    {
        match Name::from_string(name.to_owned()) {
            Ok(n) => Ok(n.get_bytes()),
            Err(e) => Err(e),
        }
    }

    /// The dotted text of the name: its labels, joined by dots. A name
    /// that still ends in a pointer has none.
    pub fn render(&self) -> (r: Result<String, NameError>)
        ensures
            self.compressed ==> r == Err::<String, NameError>(NameError::Compressed),
            !self.compressed ==> r is Ok && r->Ok_0@ == render(self@),
    {
        self.get_string()
    }

    /// Decodes the name at `cursor` of a message, every compression
    /// pointer followed, and tells where the name's own bytes end.
    pub fn decode(message: &[u8], cursor: usize) -> (r: Result<(Self, usize), NameError>)
        ensures
            match decode_name(message@, cursor as int) {
                Ok((ls, next)) => r is Ok && r->Ok_0.0@ == ls && r->Ok_0.0.wf()
                    && !r->Ok_0.0.compressed && r->Ok_0.1 == next,
                Err(e) => r == Err::<(Name, usize), NameError>(e),
            },
    {
        match Name::read(message, cursor) {
            Ok((name, next)) => {
                if name.compressed {
                    match name.expand(message) {
                        Ok(full) => Ok((full, next)),
                        Err(e) => Err(e),
                    }
                } else {
                    Ok((name, next))
                }
            },
            Err(e) => Err(e),
        }
    }

    /// Reads the name at `cursor` of a message without following a
    /// pointer, and tells where the name's bytes end. A pointer that ends
    /// the name has to point before itself.
    pub fn read(message: &[u8], cursor: usize) -> (r: Result<(Self, usize), NameError>)
        ensures
            match scan_name(message@, cursor as int) {
                Ok((ls, next)) => r is Ok && r->Ok_0.0@ == ls && r->Ok_0.0.wf() && r->Ok_0.1
                    == next && cursor < next <= message@.len() && next == cursor + name_wire_len(
                    ls,
                ),
                Err(e) => r == Err::<(Name, usize), NameError>(e),
            },
    {
        match scan(message, cursor) {
            Ok((labels, next)) => {
                proof {
                    lemma_scan_shape(message@, cursor as int, 0);
                }
                let compressed = labels.len() > 0 && labels[labels.len() - 1].is_compressed;
                if compressed && labels[labels.len() - 1].offset as usize + 2 >= next {
                    return Err(NameError::InvalidPointer);
                }
                Ok((Name { labels, compressed }, next))
            },
            Err(e) => Err(e),
        }
    }
}

/// Well-formed literals that fit a name make a valid name.
pub proof fn lemma_literals_valid(labels: Seq<Label>)
    requires
        all_wf(labels),
        all_literal(models(labels)),
        labels_wire_len(models(labels)) <= MAX_LABEL_BYTES,
    ensures
        name_valid(models(labels)),
        !ends_in_pointer(models(labels)),
{
    let ms = models(labels);
    assert forall|i: int| 0 <= i < ms.len() && (#[trigger] ms[i]) is Literal implies ms[i]->Literal_0.len()
        <= 63 by {
        assert(labels[i].wf());
    }
}

/// The byte vectors of a sequence, each as its bytes.
pub open spec fn byte_views(pieces: Seq<Vec<u8>>) -> Seq<Seq<u8>> {
    pieces.map_values(|v: Vec<u8>| v@)
}

/// Cuts a name at its dots, as `split_terminator` describes.
pub fn split_name(raw: &[u8]) -> (pieces: Vec<Vec<u8>>)
    ensures
        byte_views(pieces@) == split_terminator(raw@),
{
    let mut pieces: Vec<Vec<u8>> = Vec::new();
    let n: usize = raw.len();
    if n == 0 {
        assert(byte_views(pieces@) =~= Seq::<Seq<u8>>::empty());
        return pieces;
    }
    let mut seg: usize = 0;
    let mut i: usize = 0;
    proof {
        assert(byte_views(pieces@) =~= Seq::<Seq<u8>>::empty());
        assert(raw@.subrange(0, n as int) =~= raw@);
        assert(Seq::<Seq<u8>>::empty() + split_dots(raw@) =~= split_dots(raw@));
    }
    while i < n
        invariant
            n == raw.len(),
            seg <= i <= n,
            forall|j: int| seg <= j < i ==> raw@[j] != 46,
            split_dots(raw@) == byte_views(pieces@) + split_dots(raw@.subrange(seg as int, n as int)),
        decreases n - i,
    {
        if raw[i] == 46 {
            let piece = vstd::slice::slice_to_vec(vstd::slice::slice_subrange(raw, seg, i));
            proof {
                let sub = raw@.subrange(seg as int, n as int);
                lemma_first_dot(sub, i - seg);
                assert(sub.subrange(0, i - seg) =~= raw@.subrange(seg as int, i as int));
                assert(sub.subrange(i - seg + 1, sub.len() as int) =~= raw@.subrange(
                    i + 1,
                    n as int,
                ));
                assert(byte_views(pieces@.push(piece)) =~= byte_views(pieces@).push(piece@));
                assert(byte_views(pieces@) + (seq![piece@] + split_dots(
                    raw@.subrange(i + 1, n as int),
                )) =~= byte_views(pieces@).push(piece@) + split_dots(
                    raw@.subrange(i + 1, n as int),
                ));
            }
            pieces.push(piece);
            seg = i + 1;
        }
        i += 1;
    }
    let piece = vstd::slice::slice_to_vec(vstd::slice::slice_subrange(raw, seg, n));
    proof {
        let sub = raw@.subrange(seg as int, n as int);
        lemma_first_dot(sub, n - seg);
        assert(split_dots(sub) =~= seq![sub]);
        assert(split_dots(raw@) =~= byte_views(pieces@).push(piece@));
        assert(split_dots(raw@).last() == piece@);
        assert(split_dots(raw@).drop_last() =~= byte_views(pieces@));
        assert(byte_views(pieces@.push(piece)) =~= byte_views(pieces@).push(piece@));
    }
    if piece.len() > 0 {
        pieces.push(piece);
    }
    pieces
}

/// Makes the labels for the pieces of a name, as `labels_of_pieces`
/// describes.
pub fn labels_from_pieces(pieces: &Vec<Vec<u8>>) -> (r: Result<Vec<Label>, NameError>)
    ensures
        match labels_of_pieces(byte_views(pieces@), 0) {
            Ok(ls) => r is Ok && models(r->Ok_0@) == ls && all_wf(r->Ok_0@) && all_literal(ls)
                && labels_wire_len(ls) <= MAX_LABEL_BYTES,
            Err(e) => r == Err::<Vec<Label>, NameError>(e),
        },
{
    let ghost all = byte_views(pieces@);
    let mut labels: Vec<Label> = Vec::new();
    let mut acc: usize = 0;
    let mut i: usize = 0;
    proof {
        assert(models(labels@) =~= Seq::<LabelModel>::empty());
        assert(all.skip(0) =~= all);
        lemma_after_labels_empty(labels_of_pieces(all, 0));
    }
    while i < pieces.len()
        invariant
            i <= pieces.len(),
            all == byte_views(pieces@),
            acc <= MAX_LABEL_BYTES,
            acc == labels_wire_len(models(labels@)),
            all_wf(labels@),
            all_literal(models(labels@)),
            labels_of_pieces(all, 0) == after_labels(
                models(labels@),
                labels_of_pieces(all.skip(i as int), acc as int),
            ),
        decreases pieces.len() - i,
    {
        let len: usize = pieces[i].len();
        proof {
            assert(all.skip(i as int)[0] == pieces@[i as int]@);
            assert(all.skip(i as int).drop_first() =~= all.skip(i + 1));
        }
        if len > 63 {
            return Err(NameError::LabelTooLong);
        }
        if acc + len + 1 > MAX_LABEL_BYTES {
            return Err(NameError::NameTooLong);
        }
        let label = Label::literal(copy_bytes(&pieces[i]));
        proof {
            lemma_after_labels_prepend(
                models(labels@),
                label@,
                labels_of_pieces(all.skip(i + 1), acc + len + 1),
            );
            assert(models(labels@.push(label)) =~= models(labels@).push(label@));
            lemma_wire_len_push(models(labels@), label@);
        }
        labels.push(label);
        acc = acc + len + 1;
        i += 1;
    }
    proof {
        assert(all.skip(i as int) =~= Seq::<Seq<u8>>::empty());
        assert(models(labels@) + Seq::<LabelModel>::empty() =~= models(labels@));
    }
    Ok(labels)
}

/// A copy of a run of labels.
pub fn copy_labels(labels: &Vec<Label>) -> (r: Vec<Label>)
    ensures
        models(r@) == models(labels@),
        all_wf(labels@) ==> all_wf(r@),
        r@.len() == labels@.len(),
{
    let mut out: Vec<Label> = Vec::new();
    let mut i: usize = 0;
    while i < labels.len()
        invariant
            i <= labels.len(),
            out@.len() == i,
            forall|j: int| 0 <= j < i ==> (#[trigger] out@[j])@ == labels@[j]@,
            forall|j: int| 0 <= j < i ==> labels@[j].wf() ==> (#[trigger] out@[j]).wf(),
        decreases labels.len() - i,
    {
        let l = labels[i].clone();
        out.push(l);
        i += 1;
    }
    proof {
        assert(models(out@) =~= models(labels@));
    }
    out
}

} // verus!

//! What domain names are and how they stand on the wire: labels and
//! compression pointers, the text between the dots, and what reading a
//! name out of a message yields.

use vstd::prelude::*;
use crate::wire::name::NameError;

verus! {

/// The most bytes that the labels of one name may take on the wire, each
/// with its length octet; the closing zero octet brings a name to 255.
pub const MAX_LABEL_BYTES: usize = 254;

/// The most compression pointers that are followed for one name.
pub const MAX_POINTER_HOPS: usize = 128;

/// What a label stands for.
pub enum LabelModel {
    /// The bytes between two dots.
    Literal(Seq<u8>),
    /// A reference to an offset in the enclosing message.
    Pointer(int),
}

/// The number of bytes a label takes on the wire.
pub open spec fn label_wire_len(l: LabelModel) -> int {
    match l {
        LabelModel::Literal(b) => b.len() as int + 1,
        LabelModel::Pointer(_) => 2,
    }
}

/// The bytes a label is written as: a length octet and the bytes, or the
/// two octets of a pointer.
pub open spec fn label_wire(l: LabelModel) -> Seq<u8> {
    match l {
        LabelModel::Literal(b) => seq![b.len() as u8] + b,
        LabelModel::Pointer(t) => seq![(0xC0 + t / 256) as u8, (t % 256) as u8],
    }
}

/// The wire bytes of the labels, one after the other.
pub open spec fn labels_wire(labels: Seq<LabelModel>) -> Seq<u8>
    decreases labels.len(),
{
    if labels.len() == 0 {
        Seq::empty()
    } else {
        label_wire(labels[0]) + labels_wire(labels.drop_first())
    }
}

/// The number of bytes the labels take on the wire.
pub open spec fn labels_wire_len(labels: Seq<LabelModel>) -> int
    decreases labels.len(),
{
    if labels.len() == 0 {
        0
    } else {
        label_wire_len(labels[0]) + labels_wire_len(labels.drop_first())
    }
}

/// Whether the labels end in a pointer.
pub open spec fn ends_in_pointer(labels: Seq<LabelModel>) -> bool {
    labels.len() > 0 && labels.last() is Pointer
}

/// The bytes of a name on the wire: its labels, and the closing zero
/// octet unless a pointer ends it.
pub open spec fn name_wire(labels: Seq<LabelModel>) -> Seq<u8> {
    if ends_in_pointer(labels) {
        labels_wire(labels)
    } else {
        labels_wire(labels) + seq![0u8]
    }
}

/// The number of bytes of a name on the wire.
pub open spec fn name_wire_len(labels: Seq<LabelModel>) -> int {
    if ends_in_pointer(labels) {
        labels_wire_len(labels)
    } else {
        labels_wire_len(labels) + 1
    }
}

/// Whether every label is a literal.
pub open spec fn all_literal(labels: Seq<LabelModel>) -> bool {
    forall|i: int| 0 <= i < labels.len() ==> (#[trigger] labels[i]) is Literal
}

/// Whether a pointer stands nowhere but at the end.
pub open spec fn pointer_only_last(labels: Seq<LabelModel>) -> bool {
    forall|i: int| 0 <= i < labels.len() - 1 ==> (#[trigger] labels[i]) is Literal
}

/// Whether the labels make a name: a pointer stands nowhere but at the
/// end, a literal holds at most 63 bytes, and the literals take at most
/// 254 bytes on the wire.
pub open spec fn name_valid(labels: Seq<LabelModel>) -> bool {
    &&& pointer_only_last(labels)
    &&& forall|i: int|
        0 <= i < labels.len() ==> (#[trigger] labels[i]) is Literal ==> labels[i]->Literal_0.len()
            <= 63
    &&& forall|i: int|
        0 <= i < labels.len() ==> (#[trigger] labels[i]) is Pointer ==> 0
            <= labels[i]->Pointer_0 < 0x4000
    &&& name_wire_len(labels) <= (if ends_in_pointer(labels) {
        MAX_LABEL_BYTES + 2
    } else {
        MAX_LABEL_BYTES + 1
    })
}

/// The bytes of a text that holds ASCII only.
pub open spec fn ascii_bytes(text: Seq<char>) -> Seq<u8> {
    Seq::new(text.len(), |i: int| text[i] as u8)
}

/// The label for the text between two dots: ASCII only, and at most 63
/// bytes.
pub open spec fn label_of_text(text: Seq<char>) -> Result<LabelModel, NameError> {
    if !vstd::utf8::is_ascii_chars(text) {
        Err(NameError::NonAscii)
    } else if text.len() > 63 {
        Err(NameError::LabelTooLong)
    } else {
        Ok(LabelModel::Literal(ascii_bytes(text)))
    }
}

/// The index of the first dot in `s`, or the length of `s` where it
/// holds none.
pub open spec fn first_dot(s: Seq<u8>) -> int
    decreases s.len(),
{
    if s.len() == 0 || s[0] == 46 {
        0
    } else {
        1 + first_dot(s.drop_first())
    }
}

/// The pieces of `s` between its dots. A text without a dot is one piece.
pub open spec fn split_dots(s: Seq<u8>) -> Seq<Seq<u8>>
    decreases s.len(),
{
    let i = first_dot(s);
    if i < 0 || i >= s.len() {
        seq![s]
    } else {
        seq![s.subrange(0, i)] + split_dots(s.subrange(i + 1, s.len() as int))
    }
}

/// The pieces of `s` between its dots, without the empty piece that a
/// closing dot leaves behind. The empty text has no piece.
pub open spec fn split_terminator(s: Seq<u8>) -> Seq<Seq<u8>> {
    if s.len() == 0 {
        Seq::empty()
    } else if split_dots(s).last().len() == 0 {
        split_dots(s).drop_last()
    } else {
        split_dots(s)
    }
}

/// The outcome of a walk, with `l` put before the labels it found.
pub open spec fn prepend_label(
    l: LabelModel,
    r: Result<Seq<LabelModel>, NameError>,
) -> Result<Seq<LabelModel>, NameError> {
    match r {
        Ok(ls) => Ok(seq![l] + ls),
        Err(e) => Err(e),
    }
}

/// The labels for the pieces of a name, taken from the left: each piece
/// holds at most 63 bytes, and together with the `acc` bytes that came
/// before the labels fit a name.
pub open spec fn labels_of_pieces(pieces: Seq<Seq<u8>>, acc: int) -> Result<
    Seq<LabelModel>,
    NameError,
>
    decreases pieces.len(),
{
    if pieces.len() == 0 {
        Ok(Seq::empty())
    } else if pieces[0].len() > 63 {
        Err(NameError::LabelTooLong)
    } else if acc + pieces[0].len() + 1 > MAX_LABEL_BYTES {
        Err(NameError::NameTooLong)
    } else {
        prepend_label(
            LabelModel::Literal(pieces[0]),
            labels_of_pieces(pieces.drop_first(), acc + pieces[0].len() + 1),
        )
    }
}

/// The labels of a dotted name: the text is not empty, holds ASCII only,
/// and is cut at its dots.
pub open spec fn name_of_text(text: Seq<char>) -> Result<Seq<LabelModel>, NameError> {
    if text.len() == 0 {
        Err(NameError::EmptyName)
    } else if !vstd::utf8::is_ascii_chars(text) {
        Err(NameError::NonAscii)
    } else {
        labels_of_pieces(split_terminator(ascii_bytes(text)), 0)
    }
}

/// The text of a label: each byte of a literal as the character with
/// that code. A pointer has no text.
pub open spec fn label_text(l: LabelModel) -> Seq<char> {
    match l {
        LabelModel::Literal(b) => b.map_values(|x: u8| x as char),
        LabelModel::Pointer(_) => Seq::empty(),
    }
}

/// The dotted text of a name: the text of its labels, with a dot between
/// each two.
pub open spec fn render(labels: Seq<LabelModel>) -> Seq<char>
    decreases labels.len(),
{
    if labels.len() == 0 {
        Seq::empty()
    } else if labels.len() == 1 {
        label_text(labels[0])
    } else {
        render(labels.drop_last()) + seq!['.'] + label_text(labels.last())
    }
}

/// The offset that the two octets of a compression pointer name.
pub open spec fn pointer_target(first: u8, second: u8) -> int {
    (first as int % 64) * 256 + second as int
}

/// The outcome of a read, with `l` put before the labels it found.
pub open spec fn prepend(
    l: LabelModel,
    r: Result<(Seq<LabelModel>, int), NameError>,
) -> Result<(Seq<LabelModel>, int), NameError> {
    match r {
        Ok((ls, next)) => Ok((seq![l] + ls, next)),
        Err(e) => Err(e),
    }
}

/// Reads labels from `pos` on, up to and including the first zero octet
/// or compression pointer, and tells where the read stopped. No pointer
/// is followed. `acc` is the number of wire bytes of the labels that came
/// before.
pub open spec fn scan_labels(data: Seq<u8>, pos: int, acc: int) -> Result<
    (Seq<LabelModel>, int),
    NameError,
>
    decreases data.len() - pos,
{
    if pos < 0 || pos >= data.len() {
        Err(NameError::UnexpectedEnd)
    } else {
        let l = data[pos];
        if l == 0 {
            Ok((Seq::empty(), pos + 1))
        } else if l >= 0xC0 {
            if pos + 1 >= data.len() {
                Err(NameError::UnexpectedEnd)
            } else {
                Ok((seq![LabelModel::Pointer(pointer_target(l, data[pos + 1]))], pos + 2))
            }
        } else if l >= 0x40 {
            Err(NameError::ReservedLabelKind)
        } else if pos + 1 + l > data.len() {
            Err(NameError::UnexpectedEnd)
        } else if acc + l + 1 > MAX_LABEL_BYTES {
            Err(NameError::NameTooLong)
        } else {
            prepend(
                LabelModel::Literal(data.subrange(pos + 1, pos + 1 + l)),
                scan_labels(data, pos + 1 + l, acc + l + 1),
            )
        }
    }
}

/// Reads the name at `pos` of a message, without following a pointer. A
/// pointer that ends the name has to point before itself.
pub open spec fn scan_name(msg: Seq<u8>, pos: int) -> Result<(Seq<LabelModel>, int), NameError> {
    match scan_labels(msg, pos, 0) {
        Ok((ls, next)) => if ends_in_pointer(ls) && ls.last()->Pointer_0 >= next - 2 {
            Err(NameError::InvalidPointer)
        } else {
            Ok((ls, next))
        },
        Err(e) => Err(e),
    }
}

/// Reads the literal labels of the name that starts at `pos`, following
/// every compression pointer on the way. A pointer must point before
/// itself, at most `hops` of them are followed, and the labels together
/// with the `acc` bytes that came before fit a name.
pub open spec fn resolve(data: Seq<u8>, pos: int, hops: nat, acc: int) -> Result<
    Seq<LabelModel>,
    NameError,
>
    decreases hops, data.len() - pos,
{
    if pos < 0 || pos >= data.len() {
        Err(NameError::UnexpectedEnd)
    } else {
        let l = data[pos];
        if l == 0 {
            Ok(Seq::empty())
        } else if l >= 0xC0 {
            if pos + 1 >= data.len() {
                Err(NameError::UnexpectedEnd)
            } else if pointer_target(l, data[pos + 1]) >= pos {
                Err(NameError::InvalidPointer)
            } else if hops == 0 {
                Err(NameError::PointerLoop)
            } else {
                resolve(data, pointer_target(l, data[pos + 1]), (hops - 1) as nat, acc)
            }
        } else if l >= 0x40 {
            Err(NameError::ReservedLabelKind)
        } else if pos + 1 + l > data.len() {
            Err(NameError::UnexpectedEnd)
        } else if acc + l + 1 > MAX_LABEL_BYTES {
            Err(NameError::NameTooLong)
        } else {
            prepend_label(
                LabelModel::Literal(data.subrange(pos + 1, pos + 1 + l)),
                resolve(data, pos + 1 + l, hops, acc + l + 1),
            )
        }
    }
}

/// What following a label into `data` yields: the label has to be a
/// pointer, and its offset has to lie inside `data`. Following it is the
/// first of the hops allowed for a name.
pub open spec fn pointed_labels(offset: u16, is_compressed: bool, data: Seq<u8>) -> Result<
    Seq<LabelModel>,
    NameError,
> {
    if offset as int >= data.len() {
        Err(NameError::UnexpectedEnd)
    } else if !is_compressed {
        Err(NameError::NotCompressed)
    } else {
        resolve(data, offset as int, (MAX_POINTER_HOPS - 1) as nat, 0)
    }
}

/// The outcome of a walk, with `prefix` put before the labels it found.
pub open spec fn after_labels(
    prefix: Seq<LabelModel>,
    r: Result<Seq<LabelModel>, NameError>,
) -> Result<Seq<LabelModel>, NameError> {
    match r {
        Ok(ls) => Ok(prefix + ls),
        Err(e) => Err(e),
    }
}

/// What decompressing a name against `data` yields: its literals,
/// followed by the labels that its closing pointer leads to. Following
/// that pointer is the first of the hops allowed for a name.
pub open spec fn decompressed(labels: Seq<LabelModel>, data: Seq<u8>) -> Result<
    Seq<LabelModel>,
    NameError,
> {
    if !ends_in_pointer(labels) {
        Err(NameError::NotCompressed)
    } else {
        after_labels(
            labels.drop_last(),
            resolve(
                data,
                labels.last()->Pointer_0,
                (MAX_POINTER_HOPS - 1) as nat,
                labels_wire_len(labels.drop_last()),
            ),
        )
    }
}

/// Decodes the name at `pos` of a message: its literal labels, with
/// every compression pointer followed, and the position right behind the
/// name's own bytes, however far the pointers led.
pub open spec fn decode_name(msg: Seq<u8>, pos: int) -> Result<(Seq<LabelModel>, int), NameError> {
    match scan_name(msg, pos) {
        Ok((ls, next)) => if ends_in_pointer(ls) {
            match decompressed(ls, msg) {
                Ok(all) => Ok((all, next)),
                Err(e) => Err(e),
            }
        } else {
            Ok((ls, next))
        },
        Err(e) => Err(e),
    }
}

/// The outcome of a read, with `prefix` put before the labels it found.
pub open spec fn after(
    prefix: Seq<LabelModel>,
    r: Result<(Seq<LabelModel>, int), NameError>,
) -> Result<(Seq<LabelModel>, int), NameError> {
    match r {
        Ok((ls, next)) => Ok((prefix + ls, next)),
        Err(e) => Err(e),
    }
}

/// The compression pointers that a walk from `pos` follows, each as the
/// position of its first octet and the offset it names.
pub open spec fn pointer_chain(data: Seq<u8>, pos: int, hops: nat) -> Seq<(int, int)>
    decreases hops, data.len() - pos,
{
    if pos < 0 || pos >= data.len() {
        Seq::empty()
    } else {
        let l = data[pos];
        if l == 0 {
            Seq::empty()
        } else if l >= 0xC0 {
            if pos + 1 >= data.len() || hops == 0 {
                Seq::empty()
            } else {
                seq![(pos, pointer_target(l, data[pos + 1]))] + pointer_chain(
                    data,
                    pointer_target(l, data[pos + 1]),
                    (hops - 1) as nat,
                )
            }
        } else if l >= 0x40 || pos + 1 + l > data.len() {
            Seq::empty()
        } else {
            pointer_chain(data, pos + 1 + l, hops)
        }
    }
}

/// Whether every pointer of a chain names an offset before its own
/// position.
pub open spec fn points_backwards(chain: Seq<(int, int)>) -> bool {
    forall|k: int| 0 <= k < chain.len() ==> (#[trigger] chain[k]).1 < chain[k].0
}

} // verus!

//! What holds of the name codec as a whole: a name that was written can
//! be read back, and a name that was read followed backward pointers
//! only.

use vstd::prelude::*;
use crate::dns::name_lemmas::{
    lemma_chain_of_scan, lemma_pieces_shape, lemma_scan_wire, lemma_walk_points_backwards,
    lemma_wire_len, lemma_wire_len_nonneg,
};
use crate::dns::name_model::{
    all_literal, ascii_bytes, decode_name, ends_in_pointer, labels_wire_len, name_of_text,
    name_wire, pointer_chain, points_backwards, scan_labels, split_terminator, LabelModel,
    MAX_LABEL_BYTES, MAX_POINTER_HOPS,
};
use crate::wire::name::NameError;

verus! {

/// A name that encodes decodes to itself: for every dotted text that
/// makes a name without an empty label, decoding the name's wire bytes
/// from their start gives the same labels, and the cursor ends right
/// behind those bytes.
pub proof fn lemma_decode_of_encode(text: Seq<char>)
    requires
        name_of_text(text) is Ok,
        forall|i: int|
            0 <= i < name_of_text(text)->Ok_0.len() ==> (#[trigger] name_of_text(
                text,
            )->Ok_0[i])->Literal_0.len() > 0,
    ensures
        decode_name(name_wire(name_of_text(text)->Ok_0), 0) == Ok::<
            (Seq<LabelModel>, int),
            NameError,
        >((name_of_text(text)->Ok_0, name_wire(name_of_text(text)->Ok_0).len() as int)),
{
    let ls = name_of_text(text)->Ok_0;
    let pieces = split_terminator(ascii_bytes(text));
    lemma_pieces_shape(pieces, 0);
    lemma_wire_len_nonneg(ls);
    assert(all_literal(ls));
    assert forall|i: int| 0 <= i < ls.len() implies 1 <= (#[trigger] ls[i])->Literal_0.len()
        <= 63 by {
        assert(ls[i] == LabelModel::Literal(pieces[i]));
    }
    assert(labels_wire_len(Seq::<LabelModel>::empty()) == 0);
    lemma_scan_wire(Seq::empty(), ls, Seq::empty(), 0);
    assert(Seq::<u8>::empty() + name_wire(ls) + Seq::<u8>::empty() =~= name_wire(ls));
    lemma_wire_len(ls);
    assert(!ends_in_pointer(ls)) by {
        if ls.len() > 0 {
            assert(ls.last() is Literal);
        }
    }
}

/// Every compression pointer behind a decoded name points backwards: the
/// offset it names lies before the pointer's own first octet. This holds
/// of the pointer that ends the name's own bytes and of every pointer
/// that was followed after it.
pub proof fn lemma_decoded_pointers_point_backwards(msg: Seq<u8>, pos: int)
    requires
        decode_name(msg, pos) is Ok,
    ensures
        points_backwards(pointer_chain(msg, pos, MAX_POINTER_HOPS as nat)),
{
    let (ls, next) = scan_labels(msg, pos, 0)->Ok_0;
    lemma_chain_of_scan(msg, pos, 0, MAX_POINTER_HOPS as nat);
    if ends_in_pointer(ls) {
        let t = ls.last()->Pointer_0;
        lemma_walk_points_backwards(
            msg,
            t,
            (MAX_POINTER_HOPS - 1) as nat,
            labels_wire_len(ls.drop_last()),
        );
        let rest = pointer_chain(msg, t, (MAX_POINTER_HOPS - 1) as nat);
        let chain = pointer_chain(msg, pos, MAX_POINTER_HOPS as nat);
        assert(chain =~= seq![(next - 2, t)] + rest);
        assert forall|k: int| 0 <= k < chain.len() implies (#[trigger] chain[k]).1
            < chain[k].0 by {
            if k > 0 {
                assert(chain[k] == rest[k - 1]);
            }
        }
    }
}

/// Whether the labels are those of a name written in full: literals of
/// 1 to 63 bytes that take at most 254 bytes on the wire.
pub open spec fn written_in_full(labels: Seq<LabelModel>) -> bool {
    &&& all_literal(labels)
    &&& forall|i: int| 0 <= i < labels.len() ==> 1 <= (#[trigger] labels[i])->Literal_0.len() <= 63
    &&& labels_wire_len(labels) <= MAX_LABEL_BYTES
}

/// A name written in full decodes to itself wherever its bytes stand in
/// a message: whatever comes before and behind them, decoding at their
/// first byte gives the same labels and ends right behind the closing
/// zero octet.
pub proof fn lemma_decode_of_wire(pre: Seq<u8>, labels: Seq<LabelModel>, post: Seq<u8>)
    requires
        written_in_full(labels),
    ensures
        decode_name(pre + name_wire(labels) + post, pre.len() as int) == Ok::<
            (Seq<LabelModel>, int),
            NameError,
        >((labels, (pre.len() + name_wire(labels).len()) as int)),
        name_wire(labels).len() == labels_wire_len(labels) + 1,
{
    lemma_wire_len_nonneg(labels);
    lemma_scan_wire(pre, labels, post, 0);
    lemma_wire_len(labels);
    assert(!ends_in_pointer(labels)) by {
        if labels.len() > 0 {
            assert(labels.last() is Literal);
        }
    }
}

} // verus!

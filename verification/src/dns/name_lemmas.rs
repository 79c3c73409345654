//! Facts about names on the wire that the codec's proofs are built on.

use vstd::prelude::*;
use crate::dns::name_model::{
    after, after_labels, all_literal, decode_name, ends_in_pointer, first_dot, label_wire,
    label_wire_len, labels_of_pieces, labels_wire, labels_wire_len, name_wire, name_wire_len,
    pointer_chain, pointer_only_last, pointer_target, points_backwards, prepend, prepend_label,
    resolve, scan_labels, LabelModel, MAX_LABEL_BYTES,
};
use crate::wire::name::NameError;

verus! {

/// Putting nothing before an outcome leaves it as it is.
pub proof fn lemma_after_empty(r: Result<(Seq<LabelModel>, int), NameError>)
    ensures
        after(Seq::empty(), r) == r,
{
    match r {
        Ok((ls, next)) => {
            assert(Seq::<LabelModel>::empty() + ls =~= ls);
        },
        Err(_) => {},
    }
}

/// Putting `prefix` before an outcome that starts with `l` is putting
/// `prefix` and `l` before the rest.
pub proof fn lemma_after_prepend(
    prefix: Seq<LabelModel>,
    l: LabelModel,
    r: Result<(Seq<LabelModel>, int), NameError>,
)
    ensures
        after(prefix, prepend(l, r)) == after(prefix.push(l), r),
{
    match r {
        Ok((ls, next)) => {
            assert(prefix + (seq![l] + ls) =~= prefix.push(l) + ls);
        },
        Err(_) => {},
    }
}

/// Putting nothing before the outcome of a walk leaves it as it is.
pub proof fn lemma_after_labels_empty(r: Result<Seq<LabelModel>, NameError>)
    ensures
        after_labels(Seq::empty(), r) == r,
{
    match r {
        Ok(ls) => {
            assert(Seq::<LabelModel>::empty() + ls =~= ls);
        },
        Err(_) => {},
    }
}

/// Putting `prefix` before the outcome of a walk that starts with `l` is
/// putting `prefix` and `l` before the rest.
pub proof fn lemma_after_labels_prepend(
    prefix: Seq<LabelModel>,
    l: LabelModel,
    r: Result<Seq<LabelModel>, NameError>,
)
    ensures
        after_labels(prefix, prepend_label(l, r)) == after_labels(prefix.push(l), r),
{
    match r {
        Ok(ls) => {
            assert(prefix + (seq![l] + ls) =~= prefix.push(l) + ls);
        },
        Err(_) => {},
    }
}

/// A label's wire length is positive, and that of a run of labels is not
/// negative.
pub proof fn lemma_wire_len_nonneg(s: Seq<LabelModel>)
    ensures
        labels_wire_len(s) >= 0,
    decreases s.len(),
{
    if s.len() > 0 {
        lemma_wire_len_nonneg(s.drop_first());
    }
}

/// The wire length of labels grows by the length of a label put behind.
pub proof fn lemma_wire_len_push(s: Seq<LabelModel>, x: LabelModel)
    ensures
        labels_wire_len(s.push(x)) == labels_wire_len(s) + label_wire_len(x),
    decreases s.len(),
{
    if s.len() == 0 {
        assert(s.push(x).drop_first() =~= Seq::<LabelModel>::empty());
        assert(labels_wire_len(s.push(x).drop_first()) == 0);
    } else {
        assert(s.push(x).drop_first() =~= s.drop_first().push(x));
        lemma_wire_len_push(s.drop_first(), x);
    }
}

/// The wire bytes of labels grow by the bytes of a label put behind.
pub proof fn lemma_wire_push(s: Seq<LabelModel>, x: LabelModel)
    ensures
        labels_wire(s.push(x)) == labels_wire(s) + label_wire(x),
    decreases s.len(),
{
    if s.len() == 0 {
        assert(s.push(x).drop_first() =~= Seq::<LabelModel>::empty());
        assert(labels_wire(Seq::<LabelModel>::empty()) =~= Seq::<u8>::empty());
        assert(labels_wire(s.push(x)) =~= label_wire(x) + labels_wire(s.push(x).drop_first()));
        assert(labels_wire(s.push(x)) =~= labels_wire(s) + label_wire(x));
    } else {
        assert(s.push(x).drop_first() =~= s.drop_first().push(x));
        lemma_wire_push(s.drop_first(), x);
        assert(labels_wire(s.push(x)) =~= labels_wire(s) + label_wire(x));
    }
}

/// The wire length of two runs of labels is the sum of their lengths.
pub proof fn lemma_wire_len_concat(a: Seq<LabelModel>, b: Seq<LabelModel>)
    ensures
        labels_wire_len(a + b) == labels_wire_len(a) + labels_wire_len(b),
    decreases b.len(),
{
    if b.len() == 0 {
        assert(a + b =~= a);
    } else {
        assert(a + b =~= (a + b.drop_last()).push(b.last()));
        lemma_wire_len_concat(a, b.drop_last());
        lemma_wire_len_push(a + b.drop_last(), b.last());
        assert(b =~= b.drop_last().push(b.last()));
        lemma_wire_len_push(b.drop_last(), b.last());
    }
}

/// The first `k` labels take no more bytes than all of them.
pub proof fn lemma_wire_len_prefix(s: Seq<LabelModel>, k: int)
    requires
        0 <= k <= s.len(),
    ensures
        0 <= labels_wire_len(s.take(k)) <= labels_wire_len(s),
{
    assert(s =~= s.take(k) + s.skip(k));
    lemma_wire_len_concat(s.take(k), s.skip(k));
    lemma_wire_len_nonneg(s.take(k));
    lemma_wire_len_nonneg(s.skip(k));
}

/// The wire bytes of labels are as many as their wire length says.
pub proof fn lemma_wire_len(s: Seq<LabelModel>)
    ensures
        labels_wire(s).len() == labels_wire_len(s),
    decreases s.len(),
{
    if s.len() > 0 {
        lemma_wire_len(s.drop_first());
    }
}

/// Where the first dot stands, given that no dot stands before `k` and
/// that `k` is a dot or the end.
pub proof fn lemma_first_dot(s: Seq<u8>, k: int)
    requires
        0 <= k <= s.len(),
        forall|j: int| 0 <= j < k ==> s[j] != 46,
        k == s.len() || s[k] == 46,
    ensures
        first_dot(s) == k,
    decreases k,
{
    if k > 0 {
        lemma_first_dot(s.drop_first(), k - 1);
    }
}

/// What the labels made from pieces look like: literals of at most 63
/// bytes that fit a name together with what came before.
pub proof fn lemma_pieces_shape(pieces: Seq<Seq<u8>>, acc: int)
    requires
        labels_of_pieces(pieces, acc) is Ok,
    ensures
        ({
            let ls = labels_of_pieces(pieces, acc)->Ok_0;
            &&& ls.len() == pieces.len()
            &&& forall|i: int| 0 <= i < ls.len() ==> (#[trigger] ls[i]) == LabelModel::Literal(pieces[i])
            &&& forall|i: int| 0 <= i < ls.len() ==> (#[trigger] pieces[i]).len() <= 63
            &&& acc + labels_wire_len(ls) <= MAX_LABEL_BYTES || ls.len() == 0
        }),
    decreases pieces.len(),
{
    if pieces.len() > 0 {
        let ls = labels_of_pieces(pieces, acc)->Ok_0;
        let next = acc + pieces[0].len() + 1;
        lemma_pieces_shape(pieces.drop_first(), next);
        let rest = labels_of_pieces(pieces.drop_first(), next)->Ok_0;
        assert(ls =~= seq![LabelModel::Literal(pieces[0])] + rest);
        assert(ls.drop_first() =~= rest);
        assert forall|i: int| 0 <= i < ls.len() implies (#[trigger] ls[i]) == LabelModel::Literal(
            pieces[i],
        ) by {
            if i > 0 {
                assert(ls[i] == rest[i - 1]);
                assert(pieces.drop_first()[i - 1] == pieces[i]);
            }
        }
        assert forall|i: int| 0 <= i < ls.len() implies (#[trigger] pieces[i]).len() <= 63 by {
            if i > 0 {
                assert(pieces.drop_first()[i - 1] == pieces[i]);
            }
        }
    }
}

/// What a successful read yields: literals of 1 to 63 bytes, then at most
/// one pointer; the labels fit a name together with what came before; and
/// the read stops right behind their wire bytes.
pub proof fn lemma_scan_shape(data: Seq<u8>, pos: int, acc: int)
    requires
        scan_labels(data, pos, acc) is Ok,
        0 <= acc <= MAX_LABEL_BYTES,
    ensures
        ({
            let (ls, next) = scan_labels(data, pos, acc)->Ok_0;
            &&& pointer_only_last(ls)
            &&& forall|i: int|
                0 <= i < ls.len() ==> (#[trigger] ls[i]) is Literal ==> 1
                    <= ls[i]->Literal_0.len() <= 63
            &&& forall|i: int|
                0 <= i < ls.len() ==> (#[trigger] ls[i]) is Pointer ==> 0 <= ls[i]->Pointer_0
                    < 0x4000
            &&& next == pos + name_wire_len(ls)
            &&& 0 <= pos < next <= data.len()
            &&& acc + name_wire_len(ls) <= MAX_LABEL_BYTES + 2
            &&& !ends_in_pointer(ls) ==> acc + name_wire_len(ls) <= MAX_LABEL_BYTES + 1
            &&& data.subrange(pos, next) == name_wire(ls)
        }),
    decreases data.len() - pos,
{
    let l = data[pos];
    let (ls, next) = scan_labels(data, pos, acc)->Ok_0;
    if l == 0 {
        assert(labels_wire(ls) =~= Seq::<u8>::empty());
        assert(data.subrange(pos, next) =~= name_wire(ls));
    } else if l >= 0xC0 {
        let p = LabelModel::Pointer(pointer_target(l, data[pos + 1]));
        assert(ls =~= seq![p]);
        assert(ls.drop_first() =~= Seq::<LabelModel>::empty());
        assert(labels_wire_len(Seq::<LabelModel>::empty()) == 0);
        assert(labels_wire(Seq::<LabelModel>::empty()) =~= Seq::<u8>::empty());
        assert(labels_wire_len(ls) == 2);
        assert(l as int == 0xC0 + (l as int % 64));
        assert(label_wire(p) =~= seq![l, data[pos + 1]]);
        assert(labels_wire(ls) =~= label_wire(p) + labels_wire(ls.drop_first()));
        assert(data.subrange(pos, next) =~= name_wire(ls));
    } else {
        let lit = LabelModel::Literal(data.subrange(pos + 1, pos + 1 + l));
        lemma_scan_shape(data, pos + 1 + l, acc + l + 1);
        let (rest, next2) = scan_labels(data, pos + 1 + l, acc + l + 1)->Ok_0;
        assert(ls =~= seq![lit] + rest);
        assert(ls.drop_first() =~= rest);
        assert(ls[0] == lit);
        assert forall|i: int| 0 <= i < ls.len() - 1 implies (#[trigger] ls[i]) is Literal by {
            if i > 0 {
                assert(ls[i] == rest[i - 1]);
            }
        }
        assert forall|i: int| 0 <= i < ls.len() && (#[trigger] ls[i]) is Literal implies 1
            <= ls[i]->Literal_0.len() <= 63 by {
            if i > 0 {
                assert(ls[i] == rest[i - 1]);
            }
        }
        assert forall|i: int| 0 <= i < ls.len() && (#[trigger] ls[i]) is Pointer implies 0
            <= ls[i]->Pointer_0 < 0x4000 by {
            if i > 0 {
                assert(ls[i] == rest[i - 1]);
            }
        }
        assert(ends_in_pointer(ls) == ends_in_pointer(rest)) by {
            if rest.len() > 0 {
                assert(ls.last() == rest.last());
            }
        }
        assert(label_wire(lit) =~= data.subrange(pos, pos + 1 + l));
        assert(data.subrange(pos, next) =~= data.subrange(pos, pos + 1 + l) + data.subrange(
            pos + 1 + l,
            next,
        ));
        assert(data.subrange(pos, next) =~= name_wire(ls));
    }
}

/// What a successful walk yields: literals of 1 to 63 bytes that fit a
/// name together with what came before.
pub proof fn lemma_resolve_shape(data: Seq<u8>, pos: int, hops: nat, acc: int)
    requires
        resolve(data, pos, hops, acc) is Ok,
    ensures
        ({
            let ls = resolve(data, pos, hops, acc)->Ok_0;
            &&& all_literal(ls)
            &&& forall|i: int|
                0 <= i < ls.len() ==> 1 <= (#[trigger] ls[i])->Literal_0.len() <= 63
            &&& acc + labels_wire_len(ls) <= MAX_LABEL_BYTES || ls.len() == 0
        }),
    decreases hops, data.len() - pos,
{
    let l = data[pos];
    let ls = resolve(data, pos, hops, acc)->Ok_0;
    if l == 0 {
    } else if l >= 0xC0 {
        lemma_resolve_shape(data, pointer_target(l, data[pos + 1]), (hops - 1) as nat, acc);
    } else {
        let lit = LabelModel::Literal(data.subrange(pos + 1, pos + 1 + l));
        lemma_resolve_shape(data, pos + 1 + l, hops, acc + l + 1);
        let rest = resolve(data, pos + 1 + l, hops, acc + l + 1)->Ok_0;
        assert(ls =~= seq![lit] + rest);
        assert(ls.drop_first() =~= rest);
        assert forall|i: int| 0 <= i < ls.len() implies (#[trigger] ls[i]) is Literal && 1
            <= ls[i]->Literal_0.len() <= 63 by {
            if i > 0 {
                assert(ls[i] == rest[i - 1]);
            }
        }
    }
}

/// A name that decodes takes at least one byte of the message, and its
/// own bytes end inside the message.
pub proof fn lemma_decode_advances(msg: Seq<u8>, pos: int)
    requires
        decode_name(msg, pos) is Ok,
    ensures
        0 <= pos < decode_name(msg, pos)->Ok_0.1 <= msg.len(),
        decode_name(msg, pos)->Ok_0.1 == scan_labels(msg, pos, 0)->Ok_0.1,
{
    lemma_scan_shape(msg, pos, 0);
}

/// Reading the wire bytes of literal labels, wherever they stand in a
/// buffer, gives the labels back and stops right behind the closing zero
/// octet.
pub proof fn lemma_scan_wire(pre: Seq<u8>, ls: Seq<LabelModel>, post: Seq<u8>, acc: int)
    requires
        all_literal(ls),
        forall|i: int| 0 <= i < ls.len() ==> 1 <= (#[trigger] ls[i])->Literal_0.len() <= 63,
        0 <= acc,
        acc + labels_wire_len(ls) <= MAX_LABEL_BYTES,
    ensures
        scan_labels(pre + name_wire(ls) + post, pre.len() as int, acc) == Ok::<
            (Seq<LabelModel>, int),
            NameError,
        >((ls, pre.len() + name_wire_len(ls))),
    decreases ls.len(),
{
    let data = pre + name_wire(ls) + post;
    let pos = pre.len() as int;
    if ls.len() == 0 {
        assert(labels_wire(ls) =~= Seq::<u8>::empty());
        assert(name_wire(ls) =~= seq![0u8]);
        assert(data[pos] == 0u8);
        assert(ls =~= Seq::<LabelModel>::empty());
        assert(labels_wire_len(ls) == 0);
    } else {
        let b = ls[0]->Literal_0;
        let rest = ls.drop_first();
        assert(ls[0] is Literal);
        assert(ls[0] == LabelModel::Literal(b));
        assert(!ends_in_pointer(ls)) by {
            assert(ls.last() is Literal);
        }
        assert(!ends_in_pointer(rest)) by {
            if rest.len() > 0 {
                assert(rest.last() == ls[ls.len() - 1]);
            }
        }
        assert(all_literal(rest)) by {
            assert forall|i: int| 0 <= i < rest.len() implies (#[trigger] rest[i]) is Literal by {
                assert(rest[i] == ls[i + 1]);
            }
        }
        assert forall|i: int| 0 <= i < rest.len() implies 1 <= (#[trigger] rest[i])->Literal_0.len()
            <= 63 by {
            assert(rest[i] == ls[i + 1]);
        }
        lemma_wire_len_nonneg(rest);
        let head = seq![b.len() as u8] + b;
        assert(name_wire(ls) =~= head + name_wire(rest));
        let pre2 = pre + head;
        assert(data =~= pre2 + name_wire(rest) + post);
        assert(data[pos] == b.len() as u8);
        assert(data.subrange(pos + 1, pos + 1 + b.len()) =~= b);
        lemma_wire_len(rest);
        lemma_scan_wire(pre2, rest, post, acc + b.len() + 1);
        assert(seq![ls[0]] + rest =~= ls);
        assert(pre2.len() == pos + 1 + b.len());
        assert(labels_wire_len(ls) == b.len() + 1 + labels_wire_len(rest));
        assert(data.len() >= pos + 1 + b.len());
        assert(data[pos] as int == b.len());
        assert(scan_labels(data, pos + 1 + b.len(), acc + b.len() + 1) == Ok::<
            (Seq<LabelModel>, int),
            NameError,
        >((rest, pre2.len() + name_wire_len(rest))));
    }
}

/// The chain that starts at a name begins with the pointer that ends the
/// name's own bytes, where there is one, and is empty where there is
/// none.
pub proof fn lemma_chain_of_scan(data: Seq<u8>, pos: int, acc: int, hops: nat)
    requires
        scan_labels(data, pos, acc) is Ok,
        hops > 0,
    ensures
        ({
            let (ls, next) = scan_labels(data, pos, acc)->Ok_0;
            if ends_in_pointer(ls) {
                pointer_chain(data, pos, hops) == seq![(next - 2, ls.last()->Pointer_0)]
                    + pointer_chain(data, ls.last()->Pointer_0, (hops - 1) as nat)
            } else {
                pointer_chain(data, pos, hops) == Seq::<(int, int)>::empty()
            }
        }),
    decreases data.len() - pos,
{
    let l = data[pos];
    let (ls, next) = scan_labels(data, pos, acc)->Ok_0;
    if l == 0 {
    } else if l >= 0xC0 {
        assert(ls.last() == LabelModel::Pointer(pointer_target(l, data[pos + 1])));
    } else {
        lemma_chain_of_scan(data, pos + 1 + l, acc + l + 1, hops);
        let (rest, _) = scan_labels(data, pos + 1 + l, acc + l + 1)->Ok_0;
        assert(ls =~= seq![LabelModel::Literal(data.subrange(pos + 1, pos + 1 + l))] + rest);
        if rest.len() > 0 {
            assert(ls.last() == rest.last());
        }
    }
}

/// Every pointer that a successful walk follows points backwards.
pub proof fn lemma_walk_points_backwards(data: Seq<u8>, pos: int, hops: nat, acc: int)
    requires
        resolve(data, pos, hops, acc) is Ok,
    ensures
        points_backwards(pointer_chain(data, pos, hops)),
    decreases hops, data.len() - pos,
{
    let l = data[pos];
    if l == 0 {
    } else if l >= 0xC0 {
        let t = pointer_target(l, data[pos + 1]);
        lemma_walk_points_backwards(data, t, (hops - 1) as nat, acc);
        let rest = pointer_chain(data, t, (hops - 1) as nat);
        let chain = pointer_chain(data, pos, hops);
        assert(chain =~= seq![(pos, t)] + rest);
        assert forall|k: int| 0 <= k < chain.len() implies (#[trigger] chain[k]).1
            < chain[k].0 by {
            if k > 0 {
                assert(chain[k] == rest[k - 1]);
            }
        }
    } else {
        lemma_walk_points_backwards(data, pos + 1 + l, hops, acc + l + 1);
    }
}

} // verus!

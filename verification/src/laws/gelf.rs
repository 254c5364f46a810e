//! What datagrams come to.
use vstd::prelude::*;

use crate::gelf::{
    big_endian, chunk_datagram, chunk_is_recognised, expanded, front, gunzipped, inflated, joined,
    parsed, FrameError, Slots,
};

verus! {

/// Whether these are the first two bytes.
pub open spec fn begins(d: Seq<u8>, a: u8, b: u8) -> bool {
    d.len() >= 2 && d[0] == a && d[1] == b
}

/// Whether a datagram begins as zlib data do.
pub open spec fn begins_as_zlib(d: Seq<u8>) -> bool {
    ||| begins(d, 0x78, 0x01)
    ||| begins(d, 0x78, 0x5e)
    ||| begins(d, 0x78, 0x9c)
    ||| begins(d, 0x78, 0xda)
    ||| begins(d, 0x78, 0x20)
    ||| begins(d, 0x78, 0x7d)
    ||| begins(d, 0x78, 0xbb)
    ||| begins(d, 0x78, 0xf9)
}

/// Pieces in a row: none of them come to nothing, and one more stands behind the others.
pub proof fn pieces_stand_in_a_row(pieces: Seq<Seq<u8>>, last: Seq<u8>)
    ensures
        joined(Seq::<Seq<u8>>::empty()) == Seq::<u8>::empty(),
        joined(seq![last]) == last,
        joined(pieces.push(last)) == joined(pieces) + last,
{
    lemma_one_piece(last);
    assert(pieces.push(last).drop_last() =~= pieces);
}

/// A datagram in one piece is that piece.
proof fn lemma_one_piece(d: Seq<u8>)
    ensures
        joined(seq![d]) == d,
        front(seq![d]) == d,
{
    let pieces = seq![d];
    assert(pieces.drop_last() =~= Seq::<Seq<u8>>::empty());
    assert(joined(pieces.drop_last()) =~= Seq::<u8>::empty());
    assert(front(pieces.drop_last()) =~= Seq::<u8>::empty());
    assert(joined(pieces) =~= d);
}

/// A datagram in pieces is what it is in one piece, where its first piece has two bytes.
pub proof fn pieces_do_not_matter(partials: Map<u64, Slots>, first: Seq<u8>, rest: Seq<Seq<u8>>)
    requires
        partials.dom().finite(),
        first.len() >= 2,
    ensures
        parsed(partials, seq![first] + rest) == parsed(partials, seq![joined(seq![first] + rest)]),
{
    lemma_front_is_first(first, rest);
    crate::gelf::pieces_are_read_as_one(partials, seq![first] + rest);
}

/// The first piece that is not empty is the first.
proof fn lemma_front_is_first(first: Seq<u8>, rest: Seq<Seq<u8>>)
    requires
        first.len() > 0,
    ensures
        front(seq![first] + rest) == first,
    decreases rest.len(),
{
    let pieces = seq![first] + rest;
    if rest.len() == 0 {
        assert(pieces =~= seq![first]);
        lemma_one_piece(first);
    } else {
        assert(pieces.drop_last() =~= seq![first] + rest.drop_last());
        lemma_front_is_first(first, rest.drop_last());
    }
}

/// What is expanded is handed on whole, of whatever length.
pub proof fn expanded_data_are_whole(b: Seq<u8>)
    ensures
        expanded(Some(b)) matches Ok(Some(p)) && p.len() == b.len() && forall|i: int|
            0 <= i < b.len() ==> #[trigger] p[i] == b[i],
        expanded(None) == Err::<Option<Seq<u8>>, FrameError>(FrameError::Corrupt),
{
}

/// A datagram of gzip data gives all that they expand to, and nothing is begun or changed.
pub proof fn gzip_is_expanded(partials: Map<u64, Slots>, d: Seq<u8>)
    requires
        partials.dom().finite(),
        d.len() >= 2,
        d[0] == 0x1f && d[1] == 0x8b,
    ensures
        parsed(partials, seq![d]).partials == partials,
        parsed(partials, seq![d]).begun.len() == 0,
        match gunzipped(d) {
            Some(b) => parsed(partials, seq![d]).payload matches Ok(Some(p)) && p == b,
            None => parsed(partials, seq![d]).payload matches Err(FrameError::Corrupt),
        },
{
    lemma_one_piece(d);
}

/// A datagram of zlib data gives all that they expand to, and nothing is begun or changed.
pub proof fn zlib_is_expanded(partials: Map<u64, Slots>, d: Seq<u8>)
    requires
        partials.dom().finite(),
        d.len() >= 2,
        d[0] == 0x78,
        d[1] == 0x01 || d[1] == 0x5e || d[1] == 0x9c || d[1] == 0xda || d[1] == 0x20 || d[1] == 0x7d
            || d[1] == 0xbb || d[1] == 0xf9,
    ensures
        parsed(partials, seq![d]).partials == partials,
        parsed(partials, seq![d]).begun.len() == 0,
        match inflated(d) {
            Some(b) => parsed(partials, seq![d]).payload matches Ok(Some(p)) && p == b,
            None => parsed(partials, seq![d]).payload matches Err(FrameError::Corrupt),
        },
{
    lemma_one_piece(d);
}

/// Every other datagram is its own text, unless it is a chunk.
pub proof fn plain_datagram_is_handed_on(partials: Map<u64, Slots>, d: Seq<u8>)
    requires
        partials.dom().finite(),
        d.len() >= 2,
        !(d[0] == 0x1e && d[1] == 0x0f),
        !(d[0] == 0x1f && d[1] == 0x8b),
        !begins_as_zlib(d),
    ensures
        parsed(partials, seq![d]).partials == partials,
        parsed(partials, seq![d]).begun.len() == 0,
        parsed(partials, seq![d]).payload matches Ok(Some(p)) && p == d,
{
    lemma_one_piece(d);
}

/// Datagrams that are too short are refused, and change nothing.
pub proof fn short_datagrams_are_refused(partials: Map<u64, Slots>, d: Seq<u8>)
    requires
        partials.dom().finite(),
    ensures
        d.len() < 2 ==> parsed(partials, seq![d]).payload matches Err(FrameError::BufferTooSmall),
        2 <= d.len() < 12 && d[0] == 0x1e && d[1] == 0x0f
            ==> parsed(partials, seq![d]).payload matches Err(FrameError::PacketTooSmall),
        d.len() < 2 || (d.len() < 12 && d[0] == 0x1e && d[1] == 0x0f) ==> parsed(
            partials,
            seq![d],
        ).partials == partials && parsed(partials, seq![d]).begun.len() == 0,
{
    lemma_one_piece(d);
}

/// The number that eight bytes make up, the first of them the most significant.
proof fn lemma_eight_bytes(b: Seq<u8>)
    requires
        b.len() == 8,
    ensures
        big_endian(b) == b[0] * 0x100_0000_0000_0000 + b[1] * 0x1_0000_0000_0000 + b[2]
            * 0x100_0000_0000 + b[3] * 0x1_0000_0000 + b[4] * 0x100_0000 + b[5] * 0x1_0000 + b[6]
            * 0x100 + b[7],
{
    reveal_with_fuel(big_endian, 9);
    assert(b.drop_last().drop_last().drop_last().drop_last().drop_last().drop_last().drop_last().drop_last()
        =~= Seq::<u8>::empty());
}

/// The first chunk of a message begins it: so many places as it says, with its content in
/// its own, under the number that the eight bytes behind its mark make up.
pub proof fn first_chunk_begins_a_message(
    partials: Map<u64, Slots>,
    b: Seq<u8>,
    id: u64,
    seqno: u8,
    count: u8,
    content: Seq<u8>,
)
    requires
        partials.dom().finite(),
        b.len() == 8,
        id == b[0] * 0x100_0000_0000_0000 + b[1] * 0x1_0000_0000_0000 + b[2] * 0x100_0000_0000 + b[3]
            * 0x1_0000_0000 + b[4] * 0x100_0000 + b[5] * 0x1_0000 + b[6] * 0x100 + b[7],
        !partials.contains_key(id),
        count >= 2,
    ensures
        ({
            let out = parsed(
                partials,
                seq![seq![0x1eu8, 0x0fu8] + b + seq![seqno, count] + content],
            );
            &&& out.begun == seq![id]
            &&& out.payload matches Ok(None)
            &&& out.partials == partials.insert(
                id,
                Seq::new(
                    count as nat,
                    |i: int|
                        if i == seqno {
                            Some(content)
                        } else {
                            None
                        },
                ),
            )
        }),
{
    lemma_eight_bytes(b);
    chunk_is_recognised(b, seqno, count, content);
    crate::gelf::lemma_complete_was_begun(partials, id, seqno, count, content);
    let slots = crate::gelf::slots_after(
        crate::gelf::slots_before(partials, id, count),
        seqno,
        content,
    );
    assert(slots =~= Seq::new(
        count as nat,
        |i: int|
            if i == seqno {
                Some(content)
            } else {
                None
            },
    ));
    assert(crate::gelf::received(partials, id, seqno, count, content).complete is None);
    assert(chunk_datagram(b, seqno, count, content) == seq![0x1eu8, 0x0fu8] + b + seq![seqno, count]
        + content);
}

/// A chunk of a message that is under way takes its place among those that are there,
/// whatever number of chunks it states itself; one that has no place changes nothing.
pub proof fn later_chunk_takes_its_place(
    partials: Map<u64, Slots>,
    b: Seq<u8>,
    id: u64,
    seqno: u8,
    count: u8,
    content: Seq<u8>,
)
    requires
        partials.dom().finite(),
        b.len() == 8,
        id == b[0] * 0x100_0000_0000_0000 + b[1] * 0x1_0000_0000_0000 + b[2] * 0x100_0000_0000 + b[3]
            * 0x1_0000_0000 + b[4] * 0x100_0000 + b[5] * 0x1_0000 + b[6] * 0x100 + b[7],
        partials.contains_key(id),
        count >= 2,
        exists|i: int| 0 <= i < partials[id].len() && i != seqno && #[trigger] partials[id][i] is None,
    ensures
        ({
            let out = parsed(
                partials,
                seq![seq![0x1eu8, 0x0fu8] + b + seq![seqno, count] + content],
            );
            &&& out.begun.len() == 0
            &&& out.payload matches Ok(None)
            &&& out.partials.dom() == partials.dom()
            &&& forall|k: u64| k != id && partials.contains_key(k) ==> #[trigger] out.partials[k]
                == partials[k]
            &&& out.partials[id].len() == partials[id].len()
            &&& forall|i: int|
                0 <= i < partials[id].len() ==> #[trigger] out.partials[id][i] == (if i == seqno {
                    Some(content)
                } else {
                    partials[id][i]
                })
        }),
{
    lemma_eight_bytes(b);
    chunk_is_recognised(b, seqno, count, content);
    let i = choose|i: int|
        0 <= i < partials[id].len() && i != seqno && #[trigger] partials[id][i] is None;
    let slots = crate::gelf::slots_after(partials[id], seqno, content);
    assert(slots[i] is None);
    assert(chunk_datagram(b, seqno, count, content) == seq![0x1eu8, 0x0fu8] + b + seq![seqno, count]
        + content);
    assert(partials.insert(id, slots).dom() =~= partials.dom());
}

/// A chunk of a message of fewer than two is dropped.
pub proof fn single_chunk_is_dropped(
    partials: Map<u64, Slots>,
    b: Seq<u8>,
    seqno: u8,
    count: u8,
    content: Seq<u8>,
)
    requires
        partials.dom().finite(),
        b.len() == 8,
        count < 2,
    ensures
        ({
            let out = parsed(
                partials,
                seq![seq![0x1eu8, 0x0fu8] + b + seq![seqno, count] + content],
            );
            out.partials == partials && out.begun.len() == 0 && out.payload matches Ok(None)
        }),
{
    chunk_is_recognised(b, seqno, count, content);
    assert(chunk_datagram(b, seqno, count, content) == seq![0x1eu8, 0x0fu8] + b + seq![seqno, count]
        + content);
}

} // verus!

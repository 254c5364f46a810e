//! GELF datagrams: chunks, compression and the messages inside.
use flate2::bufread::{GzDecoder, ZlibDecoder};
use std::collections::HashMap;
use std::io::Read;
use vstd::prelude::*;

use crate::bytes::copy_bytes;
use crate::fieldmap::FieldMap;
use crate::json::{JsonValue, JsonView};

verus! {

broadcast use vstd::std_specs::hash::group_hash_axioms;

/// A message of the GELF protocol.
#[derive(Debug)]
pub struct GELFMessage {
    pub version: String,
    pub host: String,
    pub short_message: String,
    /// Every other field.
    pub other: FieldMap<JsonValue>,
}

/// What a [`GELFMessage`] says.
pub struct GelfView {
    pub version: Seq<char>,
    pub host: Seq<char>,
    pub short_message: Seq<char>,
    pub other: Map<Seq<char>, JsonView>,
}

impl View for GELFMessage {
    type V = GelfView;

    open spec fn view(&self) -> GelfView {
        GelfView {
            version: self.version@,
            host: self.host@,
            short_message: self.short_message@,
            other: self.other@,
        }
    }
}

/// Why a datagram cannot be used.
#[derive(Clone, Copy, Debug, PartialEq, Eq)]
pub enum FrameError {
    /// Fewer than two bytes are there to tell the kind of datagram by.
    BufferTooSmall,
    /// A chunk ends within its header.
    PacketTooSmall,
    /// The compressed data are damaged.
    Corrupt,
}

/// What a datagram is.
#[derive(Debug, PartialEq, Eq)]
pub enum PacketType {
    Uncompressed(Vec<u8>),
    Chunk { id: u64, seqno: u8, count: u8, content: Vec<u8> },
    GzipCompressed(Vec<u8>),
    ZlibCompressed(Vec<u8>),
}

/// What a [`PacketType`] stands for.
pub enum PacketView {
    Uncompressed(Seq<u8>),
    Chunk { id: u64, seqno: u8, count: u8, content: Seq<u8> },
    GzipCompressed(Seq<u8>),
    ZlibCompressed(Seq<u8>),
}

impl View for PacketType {
    type V = PacketView;

    open spec fn view(&self) -> PacketView {
        match *self {
            PacketType::Uncompressed(c) => PacketView::Uncompressed(c@),
            PacketType::Chunk { id, seqno, count, content } => PacketView::Chunk {
                id,
                seqno,
                count,
                content: content@,
            },
            PacketType::GzipCompressed(c) => PacketView::GzipCompressed(c@),
            PacketType::ZlibCompressed(c) => PacketView::ZlibCompressed(c@),
        }
    }
}

// ---------------------------------------------------------------------------
// Pieces
// ---------------------------------------------------------------------------

/// The pieces, seen through their views.
pub open spec fn piece_views(pieces: Seq<Vec<u8>>) -> Seq<Seq<u8>> {
    Seq::new(pieces.len(), |i: int| pieces[i]@)
}

/// All the bytes of the pieces, in a row.
pub open spec fn joined(pieces: Seq<Seq<u8>>) -> Seq<u8>
    decreases pieces.len(),
{
    if pieces.len() == 0 {
        Seq::empty()
    } else {
        joined(pieces.drop_last()) + pieces.last()
    }
}

/// The first piece that is not empty, or nothing.
pub open spec fn front(pieces: Seq<Seq<u8>>) -> Seq<u8>
    decreases pieces.len(),
{
    if pieces.len() == 0 {
        Seq::empty()
    } else if front(pieces.drop_last()).len() > 0 {
        front(pieces.drop_last())
    } else {
        pieces.last()
    }
}

/// The bytes of the pieces begin with the first piece that is not empty.
proof fn lemma_front(pieces: Seq<Seq<u8>>)
    ensures
        front(pieces).len() <= joined(pieces).len(),
        forall|i: int| 0 <= i < front(pieces).len() ==> front(pieces)[i] == joined(pieces)[i],
        front(pieces).len() == 0 ==> joined(pieces).len() == 0,
    decreases pieces.len(),
{
    if pieces.len() > 0 {
        lemma_front(pieces.drop_last());
    }
}

/// The number that bytes denote, the most significant first.
pub open spec fn big_endian(bytes: Seq<u8>) -> nat
    decreases bytes.len(),
{
    if bytes.len() == 0 {
        0
    } else {
        big_endian(bytes.drop_last()) * 256 + bytes.last() as nat
    }
}

/// Whether two bytes begin data in the zlib format.
pub open spec fn zlib_magic(a: u8, b: u8) -> bool {
    a == 0x78 && (b == 0x01 || b == 0x5e || b == 0x9c || b == 0xda || b == 0x20 || b == 0x7d || b
        == 0xbb || b == 0xf9)
}

/// What a datagram in pieces is: its first two bytes tell, which must stand in one
/// piece. A chunk has a number of eight bytes, its place and the number of chunks
/// before its content.
pub open spec fn classified(pieces: Seq<Seq<u8>>) -> Result<PacketView, FrameError> {
    let f = front(pieces);
    let all = joined(pieces);
    if f.len() < 2 {
        Err(FrameError::BufferTooSmall)
    } else if f[0] == 0x1e && f[1] == 0x0f {
        if all.len() < 12 {
            Err(FrameError::PacketTooSmall)
        } else {
            Ok(
                PacketView::Chunk {
                    id: big_endian(all.subrange(2, 10)) as u64,
                    seqno: all[10],
                    count: all[11],
                    content: all.skip(12),
                },
            )
        }
    } else if zlib_magic(f[0], f[1]) {
        Ok(PacketView::ZlibCompressed(all))
    } else if f[0] == 0x1f && f[1] == 0x8b {
        Ok(PacketView::GzipCompressed(all))
    } else {
        Ok(PacketView::Uncompressed(all))
    }
}

/// Puts the bytes of the pieces in a row, and counts those of the first piece that
/// is not empty.
fn join_pieces(pieces: &Vec<Vec<u8>>) -> (res: (Vec<u8>, usize))
    ensures
        res.0@ == joined(piece_views(pieces@)),
        res.1 == front(piece_views(pieces@)).len(),
{
    let ghost views = piece_views(pieces@);
    let mut all: Vec<u8> = Vec::new();
    let mut first: usize = 0;
    let mut i: usize = 0;
    assert(views.take(0) =~= Seq::<Seq<u8>>::empty());
    while i < pieces.len()
        invariant
            views == piece_views(pieces@),
            i <= pieces@.len(),
            all@ == joined(views.take(i as int)),
            first == front(views.take(i as int)).len(),
        decreases pieces@.len() - i,
    {
        proof {
            let next = views.take(i + 1);
            assert(next.drop_last() =~= views.take(i as int));
            assert(next.last() == pieces@[i as int]@);
        }
        if first == 0 {
            first = pieces[i].len();
        }
        let mut piece = copy_bytes(pieces[i].as_slice(), 0, pieces[i].len());
        assert(piece@ =~= pieces@[i as int]@);
        all.append(&mut piece);
        i = i + 1;
    }
    assert(views.take(i as int) =~= views);
    (all, first)
}

/// Eight bytes as a number, the most significant first.
fn read_id(bytes: &Vec<u8>) -> (res: u64)
    requires
        bytes@.len() >= 10,
    ensures
        res == big_endian(bytes@.subrange(2, 10)),
{
    let ghost id = bytes@.subrange(2, 10);
    let mut n: u64 = 0;
    let mut i: usize = 0;
    let ghost bounds: Seq<nat> = seq![
        1,
        0x100,
        0x1_0000,
        0x100_0000,
        0x1_0000_0000,
        0x100_0000_0000,
        0x1_0000_0000_0000,
        0x100_0000_0000_0000,
        0x1_0000_0000_0000_0000,
    ];
    while i < 8
        invariant
            bytes@.len() >= 10,
            id == bytes@.subrange(2, 10),
            i <= 8,
            n == big_endian(id.take(i as int)),
            n < bounds[i as int],
            forall|k: int| 0 <= k < 8 ==> bounds[k + 1] == #[trigger] bounds[k] * 256,
            forall|k: int| 0 <= k < 8 ==> #[trigger] bounds[k] <= 0x100_0000_0000_0000,
        decreases 8 - i,
    {
        assert(id.take(i + 1).drop_last() =~= id.take(i as int));
        n = n * 256 + bytes[i + 2] as u64;
        i = i + 1;
    }
    assert(id.take(8) =~= id);
    n
}

/// Tells what a datagram in pieces is.
pub fn classify(pieces: &Vec<Vec<u8>>) -> (res: Result<PacketType, FrameError>)
    ensures
        match (res, classified(piece_views(pieces@))) {
            (Ok(p), Ok(v)) => p@ == v,
            (Err(e), Err(f)) => e == f,
            _ => false,
        },
{
    let (all, first) = join_pieces(pieces);
    proof {
        lemma_front(piece_views(pieces@));
    }
    if first < 2 {
        return Err(FrameError::BufferTooSmall);
    }
    let a: u8 = all[0];
    let b: u8 = all[1];
    if a == 0x1e && b == 0x0f {
        if all.len() < 12 {
            return Err(FrameError::PacketTooSmall);
        }
        let content = copy_bytes(all.as_slice(), 12, all.len());
        assert(content@ =~= all@.skip(12));
        return Ok(
            PacketType::Chunk { id: read_id(&all), seqno: all[10], count: all[11], content },
        );
    }
    if a == 0x78 && (b == 0x01 || b == 0x5e || b == 0x9c || b == 0xda || b == 0x20 || b == 0x7d || b
        == 0xbb || b == 0xf9) {
        return Ok(PacketType::ZlibCompressed(all));
    }
    if a == 0x1f && b == 0x8b {
        return Ok(PacketType::GzipCompressed(all));
    }
    Ok(PacketType::Uncompressed(all))
}

// ---------------------------------------------------------------------------
// Chunks
// ---------------------------------------------------------------------------

/// The chunks of one message that have come in, each in its place.
pub type Slots = Seq<Option<Seq<u8>>>;

/// The optional bytes, seen through their view.
pub open spec fn opt_bytes(v: Option<Vec<u8>>) -> Option<Seq<u8>> {
    match v {
        Some(b) => Some(b@),
        None => None,
    }
}

/// The chunks of a message, seen through their views.
pub open spec fn slot_views(v: Seq<Option<Vec<u8>>>) -> Slots {
    Seq::new(v.len(), |i: int| opt_bytes(v[i]))
}

/// Whether a chunk is still missing.
pub open spec fn incomplete(slots: Slots) -> bool {
    exists|i: int| 0 <= i < slots.len() && #[trigger] slots[i] is None
}

/// The contents of the chunks.
pub open spec fn contents(slots: Slots) -> Seq<Seq<u8>> {
    Seq::new(slots.len(), |i: int| slots[i]->0)
}

/// What the chunk of a message makes of the messages under way.
pub struct Receipt {
    /// The messages under way afterwards.
    pub partials: Map<u64, Slots>,
    /// Whether the chunk is the first of its message.
    pub begun: bool,
    /// The contents of all the chunks, where none is missing any more.
    pub complete: Option<Seq<Seq<u8>>>,
}

/// The chunks that are there of a message; so many empty places for a new one.
pub open spec fn slots_before(partials: Map<u64, Slots>, id: u64, count: u8) -> Slots {
    if partials.contains_key(id) {
        partials[id]
    } else {
        Seq::new(count as nat, |i: int| None)
    }
}

/// The chunks with one more in its place, where there is such a place.
pub open spec fn slots_after(slots: Slots, seqno: u8, content: Seq<u8>) -> Slots {
    if seqno < slots.len() {
        slots.update(seqno as int, Some(content))
    } else {
        slots
    }
}

/// What a chunk makes of the messages under way: it takes its place in its
/// message, which is complete and no longer under way when no place is empty.
pub open spec fn received(
    partials: Map<u64, Slots>,
    id: u64,
    seqno: u8,
    count: u8,
    content: Seq<u8>,
) -> Receipt {
    let slots = slots_after(slots_before(partials, id, count), seqno, content);
    let begun = !partials.contains_key(id);
    if incomplete(slots) {
        Receipt { partials: partials.insert(id, slots), begun, complete: None }
    } else {
        Receipt { partials: partials.remove(id), begun, complete: Some(contents(slots)) }
    }
}

/// Whether every message under way has at least two chunks and misses one.
pub open spec fn waiting(partials: Map<u64, Slots>) -> bool {
    forall|id: u64| #[trigger]
        partials.contains_key(id) ==> partials[id].len() >= 2 && incomplete(partials[id])
}

/// The messages of which chunks have come in.
#[derive(Debug)]
pub struct Assembler {
    partials: HashMap<u64, Vec<Option<Vec<u8>>>>,
}

impl View for Assembler {
    type V = Map<u64, Slots>;

    closed spec fn view(&self) -> Map<u64, Slots> {
        self.partials@.map_values(|v: Vec<Option<Vec<u8>>>| slot_views(v@))
    }
}

/// Whether a chunk is still missing.
fn is_incomplete(slots: &Vec<Option<Vec<u8>>>) -> (res: bool)
    ensures
        res == incomplete(slot_views(slots@)),
{
    let ghost views = slot_views(slots@);
    let mut i: usize = 0;
    while i < slots.len()
        invariant
            i <= slots@.len(),
            views == slot_views(slots@),
            forall|j: int| 0 <= j < i ==> (#[trigger] views[j]) is Some,
        decreases slots@.len() - i,
    {
        if slots[i].is_none() {
            assert(views[i as int] is None);
            return true;
        }
        assert(views[i as int] is Some);
        i = i + 1;
    }
    false
}

/// The contents of the chunks of a complete message.
fn take_contents(slots: Vec<Option<Vec<u8>>>) -> (res: Vec<Vec<u8>>)
    requires
        !incomplete(slot_views(slots@)),
    ensures
        piece_views(res@) == contents(slot_views(slots@)),
{
    let ghost views = slot_views(slots@);
    assert forall|i: int| 0 <= i < views.len() implies (#[trigger] views[i]) is Some by {
        assert(!incomplete(views));
    }
    let mut res: Vec<Vec<u8>> = Vec::new();
    for slot in it: slots
        invariant
            it.seq() == slots@,
            views == slot_views(slots@),
            res@.len() == it.index(),
            forall|i: int| 0 <= i < views.len() ==> (#[trigger] views[i]) is Some,
            forall|i: int| 0 <= i < res@.len() ==> (#[trigger] res@[i])@ == views[i]->0,
    {
        assert(views[it.index()] == opt_bytes(slot));
        match slot {
            Some(bytes) => res.push(bytes),
            None => {},
        }
    }
    assert(piece_views(res@) =~= contents(views));
    res
}

/// So many empty places.
fn empty_slots(count: u8) -> (res: Vec<Option<Vec<u8>>>)
    ensures
        slot_views(res@) == Seq::new(count as nat, |i: int| None::<Seq<u8>>),
{
    let mut res: Vec<Option<Vec<u8>>> = Vec::new();
    let mut i: u8 = 0;
    while i < count
        invariant
            i <= count,
            res@.len() == i,
            forall|j: int| 0 <= j < i ==> (#[trigger] res@[j]) is None,
        decreases count - i,
    {
        res.push(None);
        i = i + 1;
    }
    assert(slot_views(res@) =~= Seq::new(count as nat, |i: int| None::<Seq<u8>>));
    res
}

impl Assembler {
    /// No message is under way.
    pub fn new() -> (res: Assembler)
        ensures
            res@ == Map::<u64, Slots>::empty(),
    {
        let res = Assembler { partials: HashMap::new() };
        assert(res@ =~= Map::<u64, Slots>::empty());
        res
    }

    /// Takes in a chunk. Tells whether it is the first of its message, and gives
    /// the contents of all chunks where none is missing any more.
    pub fn assemble_chunked(&mut self, id: u64, seqno: u8, count: u8, content: Vec<u8>) -> (res: (
        bool,
        Option<Vec<Vec<u8>>>,
    ))
        ensures
            ({
                let r = received(old(self)@, id, seqno, count, content@);
                &&& final(self)@ == r.partials
                &&& res.0 == r.begun
                &&& match (res.1, r.complete) {
                    (Some(pieces), Some(views)) => piece_views(pieces@) == views,
                    (None, None) => true,
                    _ => false,
                }
            }),
    {
        let ghost before = self@;
        let ghost held = self.partials@;
        let (begun, mut slots): (bool, Vec<Option<Vec<u8>>>) = match self.partials.remove(&id) {
            Some(slots) => (false, slots),
            None => (true, empty_slots(count)),
        };
        assert(slot_views(slots@) == slots_before(before, id, count));
        assert(self@ =~= before.remove(id));
        let ghost old_slots = slot_views(slots@);
        if (seqno as usize) < slots.len() {
            slots.set(seqno as usize, Some(content));
        }
        assert(slot_views(slots@) =~= slots_after(old_slots, seqno, content@));
        if is_incomplete(&slots) {
            let ghost kept = slot_views(slots@);
            self.partials.insert(id, slots);
            assert(self@ =~= before.insert(id, kept));
            (begun, None)
        } else {
            (begun, Some(take_contents(slots)))
        }
    }

    /// Drops what has come in of a message. Tells whether it was under way.
    pub fn expire(&mut self, id: u64) -> (res: bool)
        ensures
            final(self)@ == old(self)@.remove(id),
            res == old(self)@.contains_key(id),
    {
        let ghost before = self@;
        let res = self.partials.remove(&id).is_some();
        assert(self@ =~= before.remove(id));
        res
    }
}

// ---------------------------------------------------------------------------
// Datagrams
// ---------------------------------------------------------------------------

/// What gzip data expand to, as `GzDecoder` reads them: their first member, or
/// nothing where they are damaged.
pub uninterp spec fn gunzipped(data: Seq<u8>) -> Option<Seq<u8>>;

/// What zlib data expand to, as `ZlibDecoder` reads them, or nothing where they are
/// damaged.
pub uninterp spec fn inflated(data: Seq<u8>) -> Option<Seq<u8>>;

/// `GzDecoder`, read to its end, is fixed by the data alone.
#[verifier::external_body]
fn gunzip(data: &Vec<u8>) -> (res: Option<Vec<u8>>)
    ensures
        opt_bytes(res) == gunzipped(data@),
{
    let mut out = Vec::new();
    match GzDecoder::new(data.as_slice()).read_to_end(&mut out) {
        Ok(_) => Some(out),
        Err(_) => None,
    }
}

/// `ZlibDecoder`, read to its end, is fixed by the data alone.
#[verifier::external_body]
fn inflate(data: &Vec<u8>) -> (res: Option<Vec<u8>>)
    ensures
        opt_bytes(res) == inflated(data@),
{
    let mut out = Vec::new();
    match ZlibDecoder::new(data.as_slice()).read_to_end(&mut out) {
        Ok(_) => Some(out),
        Err(_) => None,
    }
}

/// What expanding came to: the bytes, or that the data are damaged.
pub open spec fn expanded(data: Option<Seq<u8>>) -> Result<Option<Seq<u8>>, FrameError> {
    match data {
        Some(bytes) => Ok(Some(bytes)),
        None => Err(FrameError::Corrupt),
    }
}

/// What expanding came to: the bytes, or that the data are damaged.
pub fn expansion(data: Option<Vec<u8>>) -> (res: Result<Option<Vec<u8>>, FrameError>)
    ensures
        same_payload(res, expanded(opt_bytes(data))),
{
    match data {
        Some(bytes) => Ok(Some(bytes)),
        None => Err(FrameError::Corrupt),
    }
}

/// A result, held against what it is to be.
pub open spec fn same_payload(
    res: Result<Option<Vec<u8>>, FrameError>,
    want: Result<Option<Seq<u8>>, FrameError>,
) -> bool {
    match (res, want) {
        (Ok(a), Ok(b)) => opt_bytes(a) == b,
        (Err(e), Err(f)) => e == f,
        _ => false,
    }
}

/// What a datagram comes to.
pub struct Outcome {
    /// The messages under way afterwards.
    pub partials: Map<u64, Slots>,
    /// The messages that were begun, in order: each is to expire after a while.
    pub begun: Seq<u64>,
    /// The JSON text of the message that is complete now, if one is.
    pub payload: Result<Option<Seq<u8>>, FrameError>,
}

/// Only a message that was under way can be completed by a chunk, for a new one has
/// at least two empty places.
pub proof fn lemma_complete_was_begun(
    partials: Map<u64, Slots>,
    id: u64,
    seqno: u8,
    count: u8,
    content: Seq<u8>,
)
    requires
        partials.dom().finite(),
        count >= 2,
    ensures
        received(partials, id, seqno, count, content).partials.dom().finite(),
        received(partials, id, seqno, count, content).complete is Some
            ==> partials.contains_key(id) && received(
            partials,
            id,
            seqno,
            count,
            content,
        ).partials.dom().len() < partials.dom().len(),
{
    let slots = slots_after(slots_before(partials, id, count), seqno, content);
    if !partials.contains_key(id) {
        if seqno == 0 {
            assert(slots[1] is None);
        } else {
            assert(slots[0] is None);
        }
        assert(incomplete(slots));
    }
    assert(partials.insert(id, slots).dom() =~= partials.dom().insert(id));
    assert(partials.remove(id).dom() =~= partials.dom().remove(id));
}

/// What a datagram in pieces comes to. The chunks of a message that is complete
/// are taken for a datagram in their turn.
pub open spec fn parsed(partials: Map<u64, Slots>, pieces: Seq<Seq<u8>>) -> Outcome
    decreases partials.dom().len(),
    when partials.dom().finite()
{
    match classified(pieces) {
        Err(e) => Outcome { partials, begun: seq![], payload: Err(e) },
        Ok(PacketView::Uncompressed(content)) => Outcome {
            partials,
            begun: seq![],
            payload: Ok(Some(content)),
        },
        Ok(PacketView::GzipCompressed(content)) => Outcome {
            partials,
            begun: seq![],
            payload: expanded(gunzipped(content)),
        },
        Ok(PacketView::ZlibCompressed(content)) => Outcome {
            partials,
            begun: seq![],
            payload: expanded(inflated(content)),
        },
        Ok(PacketView::Chunk { id, seqno, count, content }) => if count < 2 {
            Outcome { partials, begun: seq![], payload: Ok(None) }
        } else {
            proof {
                lemma_complete_was_begun(partials, id, seqno, count, content);
            }
            let r = received(partials, id, seqno, count, content);
            let begun = if r.begun {
                seq![id]
            } else {
                seq![]
            };
            match r.complete {
                Some(complete) => {
                    let next = parsed(r.partials, complete);
                    Outcome { begun: begun + next.begun, ..next }
                },
                None => Outcome { partials: r.partials, begun, payload: Ok(None) },
            }
        },
    }
}

impl Assembler {
    /// Takes in a datagram in pieces. Gives the messages that were begun, and the
    /// JSON text of the message that is complete now, if one is.
    pub fn parse_packet(&mut self, pieces: Vec<Vec<u8>>) -> (res: (
        Vec<u64>,
        Result<Option<Vec<u8>>, FrameError>,
    ))
        ensures
            ({
                let out = parsed(old(self)@, piece_views(pieces@));
                &&& final(self)@ == out.partials
                &&& res.0@ == out.begun
                &&& same_payload(res.1, out.payload)
            }),
            old(self)@.dom().finite(),
            final(self)@.dom().finite(),
        decreases old(self)@.dom().len(),
    {
        let ghost before = self@;
        assert(before.dom() =~= self.partials@.dom());
        let packet = match classify(&pieces) {
            Ok(packet) => packet,
            Err(e) => {
                return (Vec::new(), Err(e));
            },
        };
        match packet {
            PacketType::Uncompressed(content) => (Vec::new(), Ok(Some(content))),
            PacketType::GzipCompressed(content) => (Vec::new(), expansion(gunzip(&content))),
            PacketType::ZlibCompressed(content) => (Vec::new(), expansion(inflate(&content))),
            PacketType::Chunk { id, seqno, count, content } => {
                if count < 2 {
                    return (Vec::new(), Ok(None));
                }
                proof {
                    lemma_complete_was_begun(before, id, seqno, count, content@);
                }
                let (first, complete) = self.assemble_chunked(id, seqno, count, content);
                let mut begun: Vec<u64> = Vec::new();
                if first {
                    begun.push(id);
                }
                match complete {
                    Some(pieces) => {
                        let (mut more, payload) = self.parse_packet(pieces);
                        begun.append(&mut more);
                        (begun, payload)
                    },
                    None => (begun, Ok(None)),
                }
            },
        }
    }
}

// ---------------------------------------------------------------------------
// Laws
// ---------------------------------------------------------------------------

/// A chunk leaves every message under way incomplete.
proof fn lemma_received_waiting(
    partials: Map<u64, Slots>,
    id: u64,
    seqno: u8,
    count: u8,
    content: Seq<u8>,
)
    requires
        waiting(partials),
        count >= 2,
    ensures
        waiting(received(partials, id, seqno, count, content).partials),
{
    let r = received(partials, id, seqno, count, content);
    assert forall|k: u64| #[trigger] r.partials.contains_key(k) implies r.partials[k].len() >= 2
        && incomplete(r.partials[k]) by {
        if k != id {
            assert(partials.contains_key(k));
        } else if partials.contains_key(id) {
            assert(partials[id].len() >= 2);
        }
    }
}

/// Whatever datagrams come in, every message under way has at least two chunks and
/// misses one.
pub proof fn parsing_keeps_waiting(partials: Map<u64, Slots>, pieces: Seq<Seq<u8>>)
    requires
        partials.dom().finite(),
        waiting(partials),
    ensures
        parsed(partials, pieces).partials.dom().finite(),
        waiting(parsed(partials, pieces).partials),
    decreases partials.dom().len(),
{
    match classified(pieces) {
        Ok(PacketView::Chunk { id, seqno, count, content }) => if count >= 2 {
            let r = received(partials, id, seqno, count, content);
            lemma_complete_was_begun(partials, id, seqno, count, content);
            lemma_received_waiting(partials, id, seqno, count, content);
            match r.complete {
                Some(complete) => parsing_keeps_waiting(r.partials, complete),
                None => {},
            }
        },
        _ => {},
    }
}

/// What the chunks of one message, one after the other, make of the messages under
/// way: the receipt of the last.
pub open spec fn delivered(
    partials: Map<u64, Slots>,
    id: u64,
    count: u8,
    chunks: Seq<(u8, Seq<u8>)>,
) -> Receipt
    decreases chunks.len(),
{
    if chunks.len() == 0 {
        Receipt { partials, begun: false, complete: None }
    } else {
        let before = delivered(partials, id, count, chunks.drop_last());
        received(before.partials, id, chunks.last().0, count, chunks.last().1)
    }
}

/// The places of the chunks.
spec fn places(chunks: Seq<(u8, Seq<u8>)>) -> Seq<int> {
    Seq::new(chunks.len(), |j: int| chunks[j].0 as int)
}

/// Whether no two chunks have the same place, and each has one.
pub open spec fn placed(chunks: Seq<(u8, Seq<u8>)>, count: u8) -> bool {
    &&& forall|j: int| 0 <= j < chunks.len() ==> (#[trigger] chunks[j]).0 < count
    &&& forall|j: int, k: int|
        0 <= j < chunks.len() && 0 <= k < chunks.len() && j != k ==> (#[trigger] chunks[j]).0 != (
        #[trigger] chunks[k]).0
}

/// So many chunks as there are places fill them all; fewer do not.
proof fn lemma_places(chunks: Seq<(u8, Seq<u8>)>, count: u8)
    requires
        placed(chunks, count),
    ensures
        chunks.len() == count ==> forall|i: int|
            0 <= i < count ==> #[trigger] places(chunks).contains(i),
        chunks.len() < count ==> exists|i: int| 0 <= i < count && !places(chunks).contains(i),
{
    let ps = places(chunks);
    let set = ps.to_set();
    let range = vstd::set_lib::set_int_range(0, count as int);
    vstd::set_lib::lemma_int_range(0, count as int);
    assert(ps.no_duplicates()) by {
        assert forall|j: int, k: int| 0 <= j < ps.len() && 0 <= k < ps.len() && j != k implies ps[j]
            != ps[k] by {
            assert(chunks[j].0 != chunks[k].0);
        }
    }
    ps.unique_seq_to_set();
    assert(set.subset_of(range)) by {
        assert forall|i: int| set.contains(i) implies range.contains(i) by {
            let j = choose|j: int| 0 <= j < ps.len() && ps[j] == i;
            assert(chunks[j].0 < count);
        }
    }
    if chunks.len() == count {
        vstd::set_lib::lemma_subset_equality(set, range);
        assert forall|i: int| 0 <= i < count implies #[trigger] ps.contains(i) by {
            assert(range.contains(i));
        }
    }
    if chunks.len() < count {
        if forall|i: int| 0 <= i < count ==> ps.contains(i) {
            assert forall|i: int| range.contains(i) implies set.contains(i) by {}
            vstd::set_lib::lemma_len_subset(range, set);
        }
    }
}

/// Fewer chunks than there are places fill theirs, and leave the message under way.
proof fn lemma_delivered(
    partials: Map<u64, Slots>,
    id: u64,
    count: u8,
    chunks: Seq<(u8, Seq<u8>)>,
)
    requires
        !partials.contains_key(id),
        placed(chunks, count),
        0 < chunks.len() < count,
    ensures
        ({
            let r = delivered(partials, id, count, chunks);
            let slots = r.partials[id];
            &&& r.complete is None
            &&& r.partials == partials.insert(id, slots)
            &&& slots.len() == count
            &&& forall|j: int|
                0 <= j < chunks.len() ==> slots[(#[trigger] chunks[j]).0 as int] == Some(
                    chunks[j].1,
                )
            &&& forall|i: int|
                0 <= i < count && !places(chunks).contains(i) ==> #[trigger] slots[i] is None
        }),
    decreases chunks.len(),
{
    let front = chunks.drop_last();
    let last = chunks.last();
    assert(placed(front, count)) by {
        assert forall|j: int| 0 <= j < front.len() implies (#[trigger] front[j]).0 < count by {
            assert(chunks[j].0 < count);
        }
        assert forall|j: int, k: int|
            0 <= j < front.len() && 0 <= k < front.len() && j != k implies (#[trigger] front[j]).0
            != (#[trigger] front[k]).0 by {
            assert(chunks[j].0 != chunks[k].0);
        }
    }
    assert(last.0 < count) by {
        assert(chunks[chunks.len() - 1].0 < count);
    }
    let before = delivered(partials, id, count, front);
    let r = delivered(partials, id, count, chunks);
    let old_slots = slots_before(before.partials, id, count);
    if front.len() > 0 {
        lemma_delivered(partials, id, count, front);
    }
    let slots = slots_after(old_slots, last.0, last.1);
    assert(old_slots.len() == count);
    assert forall|j: int| 0 <= j < chunks.len() implies slots[(#[trigger] chunks[j]).0 as int]
        == Some(chunks[j].1) by {
        if j < front.len() {
            assert(front[j] == chunks[j]);
            assert(chunks[j].0 != chunks[chunks.len() - 1].0);
        }
    }
    assert forall|i: int| 0 <= i < count && !places(chunks).contains(i) implies #[trigger] slots[i]
        is None by {
        assert(i != last.0) by {
            if i == last.0 {
                assert(places(chunks)[chunks.len() - 1] == i);
            }
        }
        assert(!places(front).contains(i)) by {
            if places(front).contains(i) {
                let j = choose|j: int| 0 <= j < places(front).len() && places(front)[j] == i;
                assert(places(chunks)[j] == i);
            }
        }
    }
    lemma_places(chunks, count);
    let missing = choose|i: int| 0 <= i < count && !places(chunks).contains(i);
    assert(slots[missing] is None);
    assert(incomplete(slots));
    assert(r.partials =~= partials.insert(id, slots));
}

/// In whatever order the chunks of a message come in, the message is complete with
/// the last of them and not before; its pieces are the contents in the order of
/// their places, and what else is under way stays as it was.
pub proof fn chunks_assemble_in_any_order(
    partials: Map<u64, Slots>,
    id: u64,
    count: u8,
    chunks: Seq<(u8, Seq<u8>)>,
)
    requires
        !partials.contains_key(id),
        count >= 1,
        chunks.len() == count,
        placed(chunks, count),
    ensures
        delivered(partials, id, count, chunks).partials == partials,
        delivered(partials, id, count, chunks).complete matches Some(pieces) && pieces.len()
            == count && forall|j: int|
            0 <= j < chunks.len() ==> pieces[(#[trigger] chunks[j]).0 as int] == chunks[j].1,
        forall|k: int|
            0 <= k < count ==> delivered(
                partials,
                id,
                count,
                #[trigger] chunks.take(k),
            ).complete is None,
{
    assert forall|k: int| 0 <= k < count implies delivered(
        partials,
        id,
        count,
        #[trigger] chunks.take(k),
    ).complete is None by {
        let part = chunks.take(k);
        assert(placed(part, count)) by {
            assert forall|i: int, j: int|
                0 <= i < part.len() && 0 <= j < part.len() && i != j implies (#[trigger] part[i]).0
                != (#[trigger] part[j]).0 by {
                assert(chunks[i].0 != chunks[j].0);
            }
        }
        if k > 0 {
            lemma_delivered(partials, id, count, part);
        }
    }
    let front = chunks.drop_last();
    let last = chunks.last();
    assert(front =~= chunks.take(count - 1));
    assert(placed(front, count)) by {
        assert forall|i: int, j: int|
            0 <= i < front.len() && 0 <= j < front.len() && i != j implies (#[trigger] front[i]).0
            != (#[trigger] front[j]).0 by {
            assert(chunks[i].0 != chunks[j].0);
        }
    }
    if front.len() > 0 {
        lemma_delivered(partials, id, count, front);
    }
    assert(chunks[chunks.len() - 1].0 < count);
    let before = delivered(partials, id, count, front).partials;
    let slots = slots_after(slots_before(before, id, count), last.0, last.1);
    assert forall|j: int| 0 <= j < chunks.len() implies slots[(#[trigger] chunks[j]).0 as int]
        == Some(chunks[j].1) by {
        if j < front.len() {
            assert(front[j] == chunks[j]);
            assert(chunks[j].0 != chunks[chunks.len() - 1].0);
        }
    }
    lemma_places(chunks, count);
    assert(!incomplete(slots)) by {
        if incomplete(slots) {
            let i = choose|i: int| 0 <= i < slots.len() && #[trigger] slots[i] is None;
            assert(places(chunks).contains(i));
            let j = choose|j: int| 0 <= j < chunks.len() && places(chunks)[j] == i;
            assert(slots[chunks[j].0 as int] is Some);
        }
    }
    assert(before.remove(id) =~= partials);
}

/// The datagram that carries a chunk, with the eight bytes of its message's number.
pub open spec fn chunk_datagram(number: Seq<u8>, seqno: u8, count: u8, content: Seq<u8>) -> Seq<u8> {
    seq![0x1eu8, 0x0fu8] + number + seq![seqno, count] + content
}

/// The datagram of a chunk is recognised as that chunk.
pub proof fn chunk_is_recognised(number: Seq<u8>, seqno: u8, count: u8, content: Seq<u8>)
    requires
        number.len() == 8,
    ensures
        classified(seq![chunk_datagram(number, seqno, count, content)]) == Ok::<
            PacketView,
            FrameError,
        >(PacketView::Chunk { id: big_endian(number) as u64, seqno, count, content }),
{
    let d = chunk_datagram(number, seqno, count, content);
    let pieces = seq![d];
    assert(pieces.drop_last() =~= Seq::<Seq<u8>>::empty());
    assert(joined(pieces.drop_last()) =~= Seq::<u8>::empty());
    assert(front(pieces.drop_last()) =~= Seq::<u8>::empty());
    assert(joined(pieces) =~= d);
    assert(d.subrange(2, 10) =~= number);
    assert(d.skip(12) =~= content);
}

/// Whether the first two bytes of the pieces, where there are so many, stand in one piece.
pub open spec fn starts_in_one_piece(pieces: Seq<Seq<u8>>) -> bool {
    front(pieces).len() >= 2 || joined(pieces).len() < 2
}

/// A datagram in pieces comes to what it would come to in one piece, unless its first two
/// bytes stand in different pieces.
pub proof fn pieces_are_read_as_one(partials: Map<u64, Slots>, pieces: Seq<Seq<u8>>)
    requires
        partials.dom().finite(),
        starts_in_one_piece(pieces),
    ensures
        parsed(partials, pieces) == parsed(partials, seq![joined(pieces)]),
{
    let whole = seq![joined(pieces)];
    lemma_front(pieces);
    assert(whole.drop_last() =~= Seq::<Seq<u8>>::empty());
    assert(joined(whole.drop_last()) =~= Seq::<u8>::empty());
    assert(front(whole.drop_last()) =~= Seq::<u8>::empty());
    assert(joined(whole) =~= joined(pieces));
    assert(front(whole) == joined(pieces));
    assert(classified(pieces) == classified(whole));
}

/// The datagram of the chunk that completes a message comes to what a datagram in pieces
/// comes to whose pieces are the contents of all its chunks, in the order of their places;
/// and to what the contents come to in one piece, unless their first two bytes stand in
/// different chunks.
pub proof fn completed_message_is_read_whole(
    partials: Map<u64, Slots>,
    number: Seq<u8>,
    count: u8,
    chunks: Seq<(u8, Seq<u8>)>,
)
    requires
        partials.dom().finite(),
        number.len() == 8,
        !partials.contains_key(big_endian(number) as u64),
        count >= 2,
        chunks.len() == count,
        placed(chunks, count),
    ensures
        ({
            let id = big_endian(number) as u64;
            let before = delivered(partials, id, count, chunks.drop_last()).partials;
            let datagram = chunk_datagram(number, chunks.last().0, count, chunks.last().1);
            let pieces = delivered(partials, id, count, chunks).complete->0;
            &&& parsed(before, seq![datagram]) == parsed(partials, pieces)
            &&& starts_in_one_piece(pieces) ==> parsed(before, seq![datagram]) == parsed(
                partials,
                seq![joined(pieces)],
            )
        }),
{
    let id = big_endian(number) as u64;
    let front = chunks.drop_last();
    let last = chunks.last();
    let before = delivered(partials, id, count, front).partials;
    chunk_is_recognised(number, last.0, count, last.1);
    chunks_assemble_in_any_order(partials, id, count, chunks);
    assert(placed(front, count)) by {
        assert forall|j: int| 0 <= j < front.len() implies (#[trigger] front[j]).0 < count by {
            assert(chunks[j].0 < count);
        }
        assert forall|i: int, j: int|
            0 <= i < front.len() && 0 <= j < front.len() && i != j implies (#[trigger] front[i]).0
            != (#[trigger] front[j]).0 by {
            assert(chunks[i].0 != chunks[j].0);
        }
    }
    lemma_delivered(partials, id, count, front);
    assert(before.dom() =~= partials.dom().insert(id));
    let pieces = delivered(partials, id, count, chunks).complete->0;
    if starts_in_one_piece(pieces) {
        pieces_are_read_as_one(partials, pieces);
    }
    let next = parsed(partials, pieces);
    assert(Seq::<u64>::empty() + next.begun =~= next.begun);
}

/// A chunk that comes in twice changes nothing the second time, unless the first
/// time completed its message.
pub proof fn repeated_chunk_changes_nothing(
    partials: Map<u64, Slots>,
    id: u64,
    seqno: u8,
    count: u8,
    content: Seq<u8>,
)
    ensures
        ({
            let once = received(partials, id, seqno, count, content);
            let twice = received(once.partials, id, seqno, count, content);
            once.complete is None ==> twice.partials == once.partials && twice.complete is None
                && !twice.begun
        }),
{
    let once = received(partials, id, seqno, count, content);
    if once.complete is None {
        let slots = once.partials[id];
        assert(slots_after(slots, seqno, content) =~= slots);
        assert(once.partials.insert(id, slots) =~= once.partials);
    }
}

} // verus!

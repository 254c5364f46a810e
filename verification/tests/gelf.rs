//! GELF datagrams: chunks, compression and the text inside.
use flate2::write::{GzEncoder, ZlibEncoder};
use flate2::Compression;
use std::io::Write;
use yaffle::gelf::{classify, expansion, Assembler, FrameError, PacketType};

const TEXT: &[u8] = b"{\"version\":\"1.1\",\"host\":\"h\",\"short_message\":\"m\"}";

fn chunk(id: u64, seqno: u8, count: u8, content: &[u8]) -> Vec<u8> {
    let mut v = vec![0x1e, 0x0f];
    v.extend_from_slice(&id.to_be_bytes());
    v.push(seqno);
    v.push(count);
    v.extend_from_slice(content);
    v
}

fn gzip(data: &[u8]) -> Vec<u8> {
    let mut e = GzEncoder::new(Vec::new(), Compression::default());
    e.write_all(data).unwrap();
    e.finish().unwrap()
}

fn zlib(data: &[u8]) -> Vec<u8> {
    let mut e = ZlibEncoder::new(Vec::new(), Compression::default());
    e.write_all(data).unwrap();
    e.finish().unwrap()
}

fn feed(a: &mut Assembler, datagram: Vec<u8>) -> (Vec<u64>, Result<Option<Vec<u8>>, FrameError>) {
    a.parse_packet(vec![datagram])
}

#[test]
fn kinds_of_datagrams() {
    assert_eq!(
        classify(&vec![TEXT.to_vec()]),
        Ok(PacketType::Uncompressed(TEXT.to_vec()))
    );
    assert_eq!(
        classify(&vec![chunk(0x0102030405060708, 3, 4, b"abc")]),
        Ok(PacketType::Chunk {
            id: 0x0102030405060708,
            seqno: 3,
            count: 4,
            content: b"abc".to_vec(),
        })
    );
    assert_eq!(
        classify(&vec![chunk(u64::MAX, 255, 255, b"")]),
        Ok(PacketType::Chunk { id: u64::MAX, seqno: 255, count: 255, content: vec![] })
    );
    for b in [0x01, 0x5e, 0x9c, 0xda, 0x20, 0x7d, 0xbb, 0xf9] {
        assert_eq!(classify(&vec![vec![0x78, b]]), Ok(PacketType::ZlibCompressed(vec![0x78, b])));
    }
    assert_eq!(classify(&vec![vec![0x78, 0x02]]), Ok(PacketType::Uncompressed(vec![0x78, 0x02])));
    assert_eq!(
        classify(&vec![vec![0x1f, 0x8b, 9]]),
        Ok(PacketType::GzipCompressed(vec![0x1f, 0x8b, 9]))
    );
}

#[test]
fn datagrams_that_are_too_small() {
    assert_eq!(classify(&vec![]), Err(FrameError::BufferTooSmall));
    assert_eq!(classify(&vec![vec![], vec![]]), Err(FrameError::BufferTooSmall));
    assert_eq!(classify(&vec![vec![b'{']]), Err(FrameError::BufferTooSmall));
    assert_eq!(classify(&vec![vec![0x1e, 0x0f]]), Err(FrameError::PacketTooSmall));
    let mut short = chunk(1, 0, 2, b"");
    short.pop();
    assert_eq!(classify(&vec![short]), Err(FrameError::PacketTooSmall));
}

#[test]
fn pieces_are_read_in_a_row() {
    // The first two bytes must stand in the first piece that has any.
    assert_eq!(
        classify(&vec![vec![b'{'], vec![b'}']]),
        Err(FrameError::BufferTooSmall)
    );
    assert_eq!(
        classify(&vec![vec![], vec![b'{', b'}'], vec![b' ']]),
        Ok(PacketType::Uncompressed(b"{} ".to_vec()))
    );
    let whole = chunk(7, 1, 2, b"xyz");
    let parts = vec![whole[..5].to_vec(), whole[5..11].to_vec(), whole[11..].to_vec()];
    assert_eq!(
        classify(&parts),
        Ok(PacketType::Chunk { id: 7, seqno: 1, count: 2, content: b"xyz".to_vec() })
    );
}

#[test]
fn compressed_datagrams_are_expanded() {
    let mut a = Assembler::new();
    assert_eq!(feed(&mut a, TEXT.to_vec()), (vec![], Ok(Some(TEXT.to_vec()))));
    assert_eq!(feed(&mut a, gzip(TEXT)), (vec![], Ok(Some(TEXT.to_vec()))));
    assert_eq!(feed(&mut a, zlib(TEXT)), (vec![], Ok(Some(TEXT.to_vec()))));
    let mut bad = gzip(TEXT);
    let n = bad.len();
    bad[n - 1] ^= 1;
    assert_eq!(feed(&mut a, bad), (vec![], Err(FrameError::Corrupt)));
    let mut cut = zlib(TEXT);
    cut.truncate(8);
    assert_eq!(feed(&mut a, cut), (vec![], Err(FrameError::Corrupt)));
    assert_eq!(expansion(None), Err(FrameError::Corrupt));
    assert_eq!(expansion(Some(vec![1])), Ok(Some(vec![1])));
}

#[test]
fn chunks_in_any_order() {
    let orders: [[u8; 3]; 6] =
        [[0, 1, 2], [0, 2, 1], [1, 0, 2], [1, 2, 0], [2, 0, 1], [2, 1, 0]];
    let data = gzip(TEXT);
    let parts = [&data[..10], &data[10..20], &data[20..]];
    for order in orders {
        let mut a = Assembler::new();
        for (n, seqno) in order.iter().enumerate() {
            let (begun, out) = feed(&mut a, chunk(42, *seqno, 3, parts[usize::from(*seqno)]));
            assert_eq!(begun, if n == 0 { vec![42] } else { vec![] });
            assert_eq!(out, Ok(if n == 2 { Some(TEXT.to_vec()) } else { None }));
        }
        // Nothing is left under way.
        assert!(!a.expire(42));
    }
}

#[test]
fn chunks_of_two_messages() {
    let mut a = Assembler::new();
    assert_eq!(feed(&mut a, chunk(1, 0, 2, b"{\"a\"")), (vec![1], Ok(None)));
    assert_eq!(feed(&mut a, chunk(2, 1, 2, b":2}")), (vec![2], Ok(None)));
    assert_eq!(feed(&mut a, chunk(1, 1, 2, b":1}")), (vec![], Ok(Some(b"{\"a\":1}".to_vec()))));
    assert_eq!(
        feed(&mut a, chunk(2, 0, 2, b"{\"b\"")),
        (vec![], Ok(Some(b"{\"b\":2}".to_vec())))
    );
}

#[test]
fn repeated_and_misplaced_chunks() {
    let mut a = Assembler::new();
    assert_eq!(feed(&mut a, chunk(1, 0, 2, b"xx")), (vec![1], Ok(None)));
    // The later of two chunks for one place counts.
    assert_eq!(feed(&mut a, chunk(1, 0, 2, b"{\"")), (vec![], Ok(None)));
    // There is no third place, and the count of the first chunk holds.
    assert_eq!(feed(&mut a, chunk(1, 2, 9, b"no")), (vec![], Ok(None)));
    assert_eq!(feed(&mut a, chunk(1, 1, 2, b"a\"")), (vec![], Ok(Some(b"{\"a\"".to_vec()))));
    // A single chunk, or none, is no message.
    assert_eq!(feed(&mut a, chunk(3, 0, 1, TEXT)), (vec![], Ok(None)));
    assert_eq!(feed(&mut a, chunk(3, 0, 0, TEXT)), (vec![], Ok(None)));
    assert!(!a.expire(3));
}

#[test]
fn contents_are_read_as_one_datagram() {
    let mut a = Assembler::new();
    let data = zlib(TEXT);
    assert_eq!(feed(&mut a, chunk(8, 0, 2, &data[..2])), (vec![8], Ok(None)));
    assert_eq!(feed(&mut a, chunk(8, 1, 2, &data[2..])), feed(&mut Assembler::new(), data.clone()));
    // Where the first two bytes stand in different chunks, they are not.
    assert_eq!(feed(&mut a, chunk(9, 0, 2, &data[..1])), (vec![9], Ok(None)));
    assert_eq!(
        feed(&mut a, chunk(9, 1, 2, &data[1..])),
        (vec![], Err(FrameError::BufferTooSmall))
    );
}

#[test]
fn a_message_of_one_chunk() {
    let mut a = Assembler::new();
    assert_eq!(a.assemble_chunked(5, 0, 1, b"x".to_vec()), (true, Some(vec![b"x".to_vec()])));
    assert!(!a.expire(5));
}

#[test]
fn messages_expire() {
    let mut a = Assembler::new();
    assert_eq!(feed(&mut a, chunk(1, 0, 2, b"{\"")), (vec![1], Ok(None)));
    assert!(a.expire(1));
    assert!(!a.expire(1));
    assert_eq!(feed(&mut a, chunk(1, 1, 2, b"a\"")), (vec![1], Ok(None)));
}

#[test]
fn chunks_within_chunks() {
    let mut a = Assembler::new();
    let inner0 = chunk(9, 0, 2, b"{\"in");
    let inner1 = chunk(9, 1, 2, b"ner\":1}");
    assert_eq!(feed(&mut a, inner0), (vec![9], Ok(None)));
    assert_eq!(feed(&mut a, chunk(5, 1, 2, &inner1[6..])), (vec![5], Ok(None)));
    assert_eq!(
        feed(&mut a, chunk(5, 0, 2, &inner1[..6])),
        (vec![], Ok(Some(b"{\"inner\":1}".to_vec())))
    );
    // An outer message can begin an inner one.
    let inner = chunk(8, 0, 2, b"x");
    assert_eq!(feed(&mut a, chunk(6, 0, 2, &inner[..3])), (vec![6], Ok(None)));
    assert_eq!(feed(&mut a, chunk(6, 1, 2, &inner[3..])), (vec![8], Ok(None)));
    assert!(a.expire(8));
}

#[test]
fn many_chunks() {
    let mut a = Assembler::new();
    for i in (1..=254u8).rev() {
        assert_eq!(feed(&mut a, chunk(1, i, 255, &[i, i])).1, Ok(None));
    }
    let (_, out) = feed(&mut a, chunk(1, 0, 255, b"{ "));
    let text = out.unwrap().unwrap();
    assert_eq!(text.len(), 510);
    assert_eq!(&text[..6], &[b'{', b' ', 1, 1, 2, 2]);
}

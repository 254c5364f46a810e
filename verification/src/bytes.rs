//! Bytes: runs of them, the ASCII text they spell and what they decode to.
use vstd::prelude::*;
use vstd::utf8::{decode_utf8, valid_utf8};

verus! {

/// The text of bytes that are not UTF-8 throughout, with U+FFFD in place of what
/// cannot be decoded: what `String::from_utf8_lossy` gives.
pub uninterp spec fn lossy_text(bytes: Seq<u8>) -> Seq<char>;

/// The text of the bytes, where they are UTF-8 throughout, else what can be
/// decoded of them.
pub open spec fn text_of(bytes: Seq<u8>) -> Seq<char> {
    if valid_utf8(bytes) {
        decode_utf8(bytes)
    } else {
        lossy_text(bytes)
    }
}

/// `String::from_utf8_lossy`: the decoded text where the bytes are UTF-8, and else
/// a text that the bytes alone determine.
#[verifier::external_body]
fn from_utf8_lossy(bytes: &Vec<u8>) -> (res: String)
    ensures
        valid_utf8(bytes@) ==> res@ == decode_utf8(bytes@),
        !valid_utf8(bytes@) ==> res@ == lossy_text(bytes@),
{
    String::from_utf8_lossy(bytes).into_owned()
}

/// `String::from_utf8`: the decoded text where the bytes are UTF-8, and nothing
/// where they are not.
#[verifier::external_body]
fn from_utf8(bytes: Vec<u8>) -> (res: Option<String>)
    ensures
        match res {
            Some(s) => valid_utf8(bytes@) && s@ == decode_utf8(bytes@),
            None => !valid_utf8(bytes@),
        },
{
    String::from_utf8(bytes).ok()
}

/// Copies `bytes[from..to]`.
pub fn copy_bytes(bytes: &[u8], from: usize, to: usize) -> (res: Vec<u8>)
    requires
        from <= to <= bytes@.len(),
    ensures
        res@ == bytes@.subrange(from as int, to as int),
{
    let mut res: Vec<u8> = Vec::new();
    let mut i: usize = from;
    while i < to
        invariant
            from <= i <= to <= bytes@.len(),
            res@ == bytes@.subrange(from as int, i as int),
        decreases to - i,
    {
        res.push(bytes[i]);
        i = i + 1;
        assert(res@ =~= bytes@.subrange(from as int, i as int));
    }
    res
}

/// The text of `bytes[from..to]`, as far as they can be decoded.
pub fn lossy_string(bytes: &[u8], from: usize, to: usize) -> (res: String)
    requires
        from <= to <= bytes@.len(),
    ensures
        res@ == text_of(bytes@.subrange(from as int, to as int)),
{
    from_utf8_lossy(&copy_bytes(bytes, from, to))
}

/// The text of `bytes[from..to]`, where they are UTF-8.
pub fn utf8_string(bytes: &[u8], from: usize, to: usize) -> (res: Option<String>)
    requires
        from <= to <= bytes@.len(),
    ensures
        match res {
            Some(s) => valid_utf8(bytes@.subrange(from as int, to as int)) && s@ == decode_utf8(
                bytes@.subrange(from as int, to as int),
            ),
            None => !valid_utf8(bytes@.subrange(from as int, to as int)),
        },
{
    from_utf8(copy_bytes(bytes, from, to))
}

/// The characters that the bytes are the codes of.
pub open spec fn ascii_chars(bytes: Seq<u8>) -> Seq<char> {
    Seq::new(bytes.len(), |i: int| bytes[i] as char)
}

/// The characters that the bytes `bytes[from..to]` are the codes of.
pub fn ascii_of(bytes: &[u8], from: usize, to: usize) -> (res: Vec<char>)
    requires
        from <= to <= bytes@.len(),
    ensures
        res@ == ascii_chars(bytes@.subrange(from as int, to as int)),
{
    let mut res: Vec<char> = Vec::new();
    let mut i: usize = from;
    while i < to
        invariant
            from <= i <= to <= bytes@.len(),
            res@ == ascii_chars(bytes@.subrange(from as int, i as int)),
        decreases to - i,
    {
        res.push(bytes[i] as char);
        i = i + 1;
        assert(res@ =~= ascii_chars(bytes@.subrange(from as int, i as int)));
    }
    res
}

/// ASCII bytes are UTF-8, and decode to the characters that they are the codes of.
pub proof fn ascii_is_utf8(bytes: Seq<u8>)
    requires
        forall|i: int| 0 <= i < bytes.len() ==> #[trigger] bytes[i] <= 0x7f,
    ensures
        valid_utf8(bytes),
        decode_utf8(bytes) == ascii_chars(bytes),
    decreases bytes.len(),
{
    if bytes.len() > 0 {
        let b = bytes[0];
        assert(b <= 0x7f ==> b & 0x7f == b) by (bit_vector);
        let rest = bytes.subrange(1, bytes.len() as int);
        ascii_is_utf8(rest);
        assert(vstd::utf8::pop_first_scalar(bytes) == rest);
        assert(decode_utf8(bytes) == seq![b as char] + decode_utf8(rest));
        assert(seq![b as char] + ascii_chars(rest) =~= ascii_chars(bytes));
    } else {
        assert(ascii_chars(bytes) =~= Seq::<char>::empty());
    }
}

/// Whether a byte is a decimal digit.
pub open spec fn is_digit(b: u8) -> bool {
    0x30 <= b <= 0x39
}

/// Whether a byte is a letter or a digit of ASCII.
pub open spec fn is_alphanumeric(b: u8) -> bool {
    is_digit(b) || 0x41 <= b <= 0x5a || 0x61 <= b <= 0x7a
}

/// The classes of bytes that messages are made of.
#[derive(Clone, Copy)]
pub enum ByteClass {
    /// A decimal digit.
    Digit,
    /// A letter, a digit or a dot.
    Host,
    /// Anything but a colon, an opening bracket, a space or a tab.
    Identifier,
    /// Anything but a space.
    Solid,
}

/// Whether a byte belongs to a class.
pub open spec fn byte_in(class: ByteClass, b: u8) -> bool {
    match class {
        ByteClass::Digit => is_digit(b),
        ByteClass::Host => is_alphanumeric(b) || b == 0x2e,
        ByteClass::Identifier => b != 0x3a && b != 0x5b && b != 0x20 && b != 0x09,
        ByteClass::Solid => b != 0x20,
    }
}

/// Whether a byte belongs to a class.
fn is_byte_in(class: ByteClass, b: u8) -> (res: bool)
    ensures
        res == byte_in(class, b),
{
    match class {
        ByteClass::Digit => 0x30 <= b && b <= 0x39,
        ByteClass::Host => (0x30 <= b && b <= 0x39) || (0x41 <= b && b <= 0x5a) || (0x61 <= b && b
            <= 0x7a) || b == 0x2e,
        ByteClass::Identifier => b != 0x3a && b != 0x5b && b != 0x20 && b != 0x09,
        ByteClass::Solid => b != 0x20,
    }
}

/// The end of the longest run of the class that starts at `i`.
pub open spec fn byte_run(s: Seq<u8>, i: int, class: ByteClass) -> int
    decreases s.len() - i,
{
    if 0 <= i < s.len() && byte_in(class, s[i]) {
        byte_run(s, i + 1, class)
    } else {
        i
    }
}

/// A run lies within the bytes and ends where its class does.
pub proof fn lemma_byte_run(s: Seq<u8>, i: int, class: ByteClass)
    requires
        0 <= i <= s.len(),
    ensures
        i <= byte_run(s, i, class) <= s.len(),
        forall|j: int| i <= j < byte_run(s, i, class) ==> byte_in(class, #[trigger] s[j]),
        byte_run(s, i, class) < s.len() ==> !byte_in(class, s[byte_run(s, i, class)]),
    decreases s.len() - i,
{
    if i < s.len() && byte_in(class, s[i]) {
        lemma_byte_run(s, i + 1, class);
    }
}

/// Finds the end of the longest run of the class that starts at `i`.
pub fn scan_bytes(bytes: &[u8], i: usize, class: ByteClass) -> (res: usize)
    requires
        i <= bytes@.len(),
    ensures
        res == byte_run(bytes@, i as int, class),
        i <= res <= bytes@.len(),
{
    let mut j: usize = i;
    while j < bytes.len() && is_byte_in(class, bytes[j])
        invariant
            i <= j <= bytes@.len(),
            byte_run(bytes@, i as int, class) == byte_run(bytes@, j as int, class),
        decreases bytes@.len() - j,
    {
        j = j + 1;
    }
    j
}

/// Whether the byte `b` stands at `i`.
pub open spec fn byte_at(s: Seq<u8>, i: int, b: u8) -> bool {
    0 <= i < s.len() && s[i] == b
}

/// Whether the byte `b` stands at `i`.
pub fn is_byte_at(bytes: &[u8], i: usize, b: u8) -> (res: bool)
    ensures
        res == byte_at(bytes@, i as int, b),
        res ==> i < usize::MAX,
{
    i < bytes.len() && bytes[i] == b
}

} // verus!

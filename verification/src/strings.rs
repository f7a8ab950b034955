//! Moving text across the boundary.
//!
//! Native text is UTF-8 and host text is UTF-16, and only numbers cross. So
//! text travels as code units of UTF-16 in memory that both sides can reach.
//! Towards the host, native code lays the units out and names their address
//! and count in a call. Towards native code, the host fills a transfer buffer,
//! which is a count of code units in four bytes followed by the units, and
//! returns its address; native code reads the buffer once and frees it. All
//! of it is little-endian, as the shared memory is.
use crate::boundary::{BoundaryCall, MAX_SAFE_INTEGER};
use crate::Bridge;
use vstd::prelude::*;

verus! {

/// What stands for code units that spell no character.
pub const REPLACEMENT: char = '\u{FFFD}';

/// `u` is the first unit of a surrogate pair.
pub open spec fn is_high_surrogate(u: u16) -> bool {
    0xD800 <= u <= 0xDBFF
}

/// `u` is the second unit of a surrogate pair.
pub open spec fn is_low_surrogate(u: u16) -> bool {
    0xDC00 <= u <= 0xDFFF
}

/// The code units of UTF-16 that spell `c`: one for a character below
/// U+10000, a surrogate pair for any other.
pub open spec fn char_units(c: char) -> Seq<u16> {
    let v = c as u32 as int;
    if v < 0x10000 {
        seq![v as u16]
    } else {
        seq![(0xD800 + (v - 0x10000) / 0x400) as u16, (0xDC00 + (v - 0x10000) % 0x400) as u16]
    }
}

/// The character that the surrogate pair `high`, `low` spells.
pub open spec fn pair_char(high: u16, low: u16) -> char {
    (0x10000 + (high - 0xD800) * 0x400 + (low - 0xDC00)) as u32 as char
}

/// The code units of UTF-16 that spell `text`.
pub open spec fn utf16_units(text: Seq<char>) -> Seq<u16>
    decreases text.len(),
{
    if text.len() == 0 {
        Seq::empty()
    } else {
        char_units(text[0]) + utf16_units(text.skip(1))
    }
}

/// The text that `units` spell, with `REPLACEMENT` for each surrogate that
/// has no partner.
pub open spec fn utf16_text(units: Seq<u16>) -> Seq<char>
    decreases units.len(),
{
    if units.len() == 0 {
        Seq::empty()
    } else if !is_high_surrogate(units[0]) && !is_low_surrogate(units[0]) {
        seq![units[0] as u32 as char] + utf16_text(units.skip(1))
    } else if is_high_surrogate(units[0]) && units.len() >= 2 && is_low_surrogate(units[1]) {
        seq![pair_char(units[0], units[1])] + utf16_text(units.skip(2))
    } else {
        seq![REPLACEMENT] + utf16_text(units.skip(1))
    }
}

/// The number that the four bytes at the front of `bytes` spell, least byte first.
pub open spec fn le_u32(bytes: Seq<u8>) -> int {
    bytes[0] + bytes[1] * 0x100 + bytes[2] * 0x1_0000 + bytes[3] * 0x100_0000
}

/// The code unit that the two bytes at `at` in `bytes` spell, least byte first.
pub open spec fn le_u16(bytes: Seq<u8>, at: int) -> u16 {
    (bytes[at] + bytes[at + 1] * 0x100) as u16
}

/// The size in bytes of a transfer buffer that holds `units` code units.
pub open spec fn buffer_size(units: int) -> int {
    4 + 2 * units
}

/// `buffer` begins with a whole transfer buffer: the count, and as many code
/// units as the count says.
pub open spec fn holds_buffer(buffer: Seq<u8>) -> bool {
    buffer.len() >= 4 && buffer.len() >= buffer_size(le_u32(buffer))
}

/// The code units of the transfer buffer at the front of `buffer`.
pub open spec fn buffer_units(buffer: Seq<u8>) -> Seq<u16> {
    Seq::new(le_u32(buffer) as nat, |i: int| le_u16(buffer, 4 + 2 * i))
}

/// The transfer buffer that holds `units`.
pub open spec fn framed(units: Seq<u16>) -> Seq<u8> {
    Seq::new(
        buffer_size(units.len() as int) as nat,
        |k: int|
            if k < 4 {
                ((units.len() as int / pow256(k)) % 0x100) as u8
            } else if k % 2 == 0 {
                (units[(k - 4) / 2] % 0x100) as u8
            } else {
                (units[(k - 4) / 2] / 0x100) as u8
            },
    )
}

/// 256 to the power `k`, for the four bytes of a count.
pub open spec fn pow256(k: int) -> int {
    if k <= 0 {
        1
    } else if k == 1 {
        0x100
    } else if k == 2 {
        0x1_0000
    } else {
        0x100_0000
    }
}

/// Why bytes are no transfer buffer.
#[derive(Clone, Copy, Debug, PartialEq, Eq, Structural)]
pub enum BufferError {
    /// Fewer than the four bytes of the count are there.
    MissingCount,
    /// Fewer code units are there than the count says.
    Truncated,
}

/// `char::from_u32` gives the character with the code `code`, and `None`
/// for a surrogate and for a number above U+10FFFF, which are no characters.
pub assume_specification[ char::from_u32 ](code: u32) -> (r: Option<char>)
    ensures
        r == (if code < 0xD800 || 0xE000 <= code <= 0x10FFFF {
            Some(code as char)
        } else {
            None
        }),
;

/// `String::push` appends the character `c` to the text.
pub assume_specification[ String::push ](text: &mut String, c: char)
    ensures
        final(text)@ == old(text)@.push(c),
;

/// The code units that native code lays out in memory to hand `text` to the
/// host: `text` in UTF-16.
pub fn string_units(text: &str) -> (units: Vec<u16>)
    ensures
        units@ == utf16_units(text@),
{
    let mut units: Vec<u16> = Vec::new();
    for c in chars: text.chars()
        invariant
            chars.seq() == text@,
            units@ == utf16_units(text@.take(chars.index() as int)),
    {
        let code: u32 = c as u32;
        proof {
            lemma_units_push(text@.take(chars.index() as int), c);
            assert(text@.take(chars.index() + 1) == text@.take(chars.index() as int).push(c));
        }
        if code < 0x10000 {
            units.push(code as u16);
        } else {
            let offset: u32 = code - 0x10000;
            units.push((0xD800 + offset / 0x400) as u16);
            units.push((0xDC00 + offset % 0x400) as u16);
        }
    }
    assert(text@.take(text@.len() as int) == text@);
    units
}

/// The text that `units` spell as UTF-16. A surrogate without its partner
/// spells nothing and gives U+FFFD: malformed input loses what it cannot
/// say, and is never refused.
pub fn units_string(units: &[u16]) -> (text: String)
    ensures
        text@ == utf16_text(units@),
{
    let mut text = String::new();
    let mut i: usize = 0;
    assert(units@.skip(0) == units@);
    while i < units.len()
        invariant
            i <= units.len(),
            utf16_text(units@) == text@ + utf16_text(units@.skip(i as int)),
        decreases units.len() - i,
    {
        let ghost before = text@;
        let ghost rest = units@.skip(i as int);
        let unit: u16 = units[i];
        let mut used: usize = 1;
        let mut code: u32 = 0xFFFD;
        if unit < 0xD800 || unit > 0xDFFF {
            code = unit as u32;
        } else if unit <= 0xDBFF && units.len() - i >= 2 {
            let next: u16 = units[i + 1];
            if 0xDC00 <= next && next <= 0xDFFF {
                code = 0x10000 + (unit - 0xD800) as u32 * 0x400 + (next - 0xDC00) as u32;
                used = 2;
            }
        }
        let c: char = match char::from_u32(code) {
            Some(c) => c,
            None => REPLACEMENT,
        };
        text.push(c);
        assert(rest.skip(used as int) == units@.skip(i + used));
        assert(before + (seq![c] + utf16_text(rest.skip(used as int))) == before.push(c)
            + utf16_text(rest.skip(used as int)));
        i += used;
    }
    assert(units@.skip(units@.len() as int) == Seq::<u16>::empty());
    text
}

/// The call that has the host read `units` code units at `address` and store
/// the string that they spell.
///
/// Addresses and counts cross the boundary as doubles. `None` where a double
/// cannot hold every address of the units exactly, and where the host is not
/// set up.
pub fn store_request(bridge: &Bridge, address: usize, units: usize) -> (r: Option<BoundaryCall>)
    ensures
        r == (if bridge.ready() && address + 2 * units <= MAX_SAFE_INTEGER {
            Some(BoundaryCall::StoreString { address: address as i64, units: units as i64 })
        } else {
            None
        }),
        r matches Some(call) ==> call.well_formed(),
{
    let limit: u64 = MAX_SAFE_INTEGER as u64;
    if bridge.is_ready() && address as u64 <= limit && units as u64 <= limit && 2 * (units as u64)
        <= limit - address as u64 {
        Some(BoundaryCall::StoreString { address: address as i64, units: units as i64 })
    } else {
        None
    }
}

/// The size in bytes of the transfer buffer whose first bytes are `front`,
/// so that the reader knows how far the buffer reaches.
///
/// `None` where `front` holds fewer than the four bytes of the count, or
/// where no slice can be as long as the count asks.
pub fn buffer_len(front: &[u8]) -> (r: Option<usize>)
    ensures
        r == (if front.len() >= 4 && buffer_size(le_u32(front@)) <= usize::MAX {
            Some(buffer_size(le_u32(front@)) as usize)
        } else {
            None
        }),
{
    if front.len() < 4 {
        return None;
    }
    let count: u64 = front[0] as u64 + front[1] as u64 * 0x100 + front[2] as u64 * 0x1_0000
        + front[3] as u64 * 0x100_0000;
    let size: u64 = 4 + 2 * count;
    if size <= usize::MAX as u64 {
        Some(size as usize)
    } else {
        None
    }
}

/// The code units of the transfer buffer at the front of `buffer`.
pub fn read_units(buffer: &[u8]) -> (r: Result<Vec<u16>, BufferError>)
    ensures
        match r {
            Ok(units) => holds_buffer(buffer@) && units@ == buffer_units(buffer@),
            Err(BufferError::MissingCount) => buffer.len() < 4,
            Err(BufferError::Truncated) => 4 <= buffer.len() < buffer_size(le_u32(buffer@)),
        },
{
    if buffer.len() < 4 {
        return Err(BufferError::MissingCount);
    }
    let count: u64 = buffer[0] as u64 + buffer[1] as u64 * 0x100 + buffer[2] as u64 * 0x1_0000
        + buffer[3] as u64 * 0x100_0000;
    if (buffer.len() as u64) < 4 + 2 * count {
        return Err(BufferError::Truncated);
    }
    let count: usize = count as usize;
    let mut units: Vec<u16> = Vec::new();
    let mut i: usize = 0;
    while i < count
        invariant
            i <= count,
            count == le_u32(buffer@),
            buffer.len() >= buffer_size(count as int),
            units.len() == i,
            forall|k: int| 0 <= k < i ==> units[k] == le_u16(buffer@, 4 + 2 * k),
        decreases count - i,
    {
        let low: u16 = buffer[4 + 2 * i] as u16;
        let high: u16 = buffer[5 + 2 * i] as u16;
        units.push(low + high * 0x100);
        i += 1;
    }
    Ok(units)
}

/// The text in the transfer buffer at the front of `buffer`: its code units
/// decoded, with U+FFFD for each surrogate that has no partner.
///
/// Fails only where `buffer` is shorter than the buffer that its count
/// announces. Malformed UTF-16 is no failure.
pub fn read_string(buffer: &[u8]) -> (r: Result<String, BufferError>)
    ensures
        match r {
            Ok(text) => holds_buffer(buffer@) && text@ == utf16_text(buffer_units(buffer@)),
            Err(BufferError::MissingCount) => buffer.len() < 4,
            Err(BufferError::Truncated) => 4 <= buffer.len() < buffer_size(le_u32(buffer@)),
        },
{
    match read_units(buffer) {
        Ok(units) => Ok(units_string(units.as_slice())),
        Err(e) => Err(e),
    }
}

/// The transfer buffer that holds `units`, as the host lays it out, or `None`
/// where four bytes cannot hold their count.
pub fn write_buffer(units: &[u16]) -> (r: Option<Vec<u8>>)
    ensures
        units.len() <= u32::MAX <==> r is Some,
        r matches Some(buffer) ==> buffer@ == framed(units@),
{
    if units.len() as u64 > u32::MAX as u64 {
        return None;
    }
    let count: u32 = units.len() as u32;
    let mut buffer: Vec<u8> = Vec::new();
    buffer.push((count % 0x100) as u8);
    buffer.push(((count / 0x100) % 0x100) as u8);
    buffer.push(((count / 0x1_0000) % 0x100) as u8);
    buffer.push(((count / 0x100_0000) % 0x100) as u8);
    let mut i: usize = 0;
    while i < units.len()
        invariant
            i <= units.len(),
            units.len() <= u32::MAX,
            buffer.len() == 4 + 2 * i,
            forall|k: int| 0 <= k < buffer.len() ==> buffer[k] == framed(units@)[k],
        decreases units.len() - i,
    {
        let unit: u16 = units[i];
        buffer.push((unit % 0x100) as u8);
        buffer.push((unit / 0x100) as u8);
        i += 1;
    }
    Some(buffer)
}

/// A transfer buffer gives back the code units that it was made of.
pub proof fn lemma_buffer_round_trip(units: Seq<u16>)
    requires
        units.len() <= u32::MAX,
    ensures
        holds_buffer(framed(units)),
        le_u32(framed(units)) == units.len(),
        buffer_units(framed(units)) == units,
{
    let buffer = framed(units);
    assert(le_u32(buffer) == units.len());
    assert forall|i: int| 0 <= i < units.len() implies le_u16(buffer, 4 + 2 * i) == units[i] by {}
}

/// The encoding of a text goes character by character.
pub proof fn lemma_units_push(text: Seq<char>, c: char)
    ensures
        utf16_units(text.push(c)) == utf16_units(text) + char_units(c),
    decreases text.len(),
{
    if text.len() == 0 {
        assert(text.push(c).skip(1) == Seq::<char>::empty());
        assert(utf16_units(text.push(c)) == char_units(c) + utf16_units(Seq::<char>::empty()));
    } else {
        assert(text.push(c).skip(1) == text.skip(1).push(c));
        lemma_units_push(text.skip(1), c);
    }
}

/// One character, encoded and decoded, is the same character.
pub proof fn lemma_char_round_trip(c: char, rest: Seq<u16>)
    ensures
        utf16_text(char_units(c) + rest) == seq![c] + utf16_text(rest),
{
    let units = char_units(c) + rest;
    if (c as u32) < 0x10000 {
        assert(units.skip(1) == rest);
    } else {
        assert(units.skip(2) == rest);
    }
}

/// Text that is encoded and decoded is the same text.
pub proof fn lemma_text_round_trip(text: Seq<char>)
    ensures
        utf16_text(utf16_units(text)) == text,
    decreases text.len(),
{
    if text.len() > 0 {
        lemma_text_round_trip(text.skip(1));
        lemma_char_round_trip(text[0], utf16_units(text.skip(1)));
    }
}

/// Text that crosses to the host and back is the same text: encoded, laid
/// out in a transfer buffer, read from it and decoded.
pub proof fn lemma_string_round_trip(text: Seq<char>)
    requires
        utf16_units(text).len() <= u32::MAX,
    ensures
        holds_buffer(framed(utf16_units(text))),
        utf16_text(buffer_units(framed(utf16_units(text)))) == text,
{
    lemma_buffer_round_trip(utf16_units(text));
    lemma_text_round_trip(text);
}

} // verus!

use vstd::prelude::*;

verus! {

/// The UTF-16 code units of one character: itself below 0x10000, else a
/// high and a low surrogate.
pub open spec fn char_units(c: char) -> Seq<u16> {
    let v = c as u32;
    if v < 0x10000 {
        seq![v as u16]
    } else {
        seq![(0xD800 + (v - 0x10000) / 0x400) as u16, (0xDC00 + (v - 0x10000) % 0x400) as u16]
    }
}

/// The UTF-16 code units of a text, without a byte-order mark.
pub open spec fn utf16(text: Seq<char>) -> Seq<u16>
    decreases text.len(),
{
    if text.len() == 0 {
        Seq::empty()
    } else {
        utf16(text.drop_last()) + char_units(text.last())
    }
}

/// The bytes of the code units, each unit's low byte first.
pub open spec fn le_bytes(units: Seq<u16>) -> Seq<u8> {
    Seq::new(
        2 * units.len(),
        |i: int|
            if i % 2 == 0 {
                (units[i / 2] % 256) as u8
            } else {
                (units[i / 2] / 256) as u8
            },
    )
}

/// The bytes of the code units, each unit's high byte first.
pub open spec fn be_bytes(units: Seq<u16>) -> Seq<u8> {
    Seq::new(
        2 * units.len(),
        |i: int|
            if i % 2 == 0 {
                (units[i / 2] / 256) as u8
            } else {
                (units[i / 2] % 256) as u8
            },
    )
}

/// Whether `bytes` are the code units as a machine holds them in memory: in
/// one of the two byte orders, the same for every unit.
pub open spec fn memory_bytes(units: Seq<u16>, bytes: Seq<u8>) -> bool {
    bytes == le_bytes(units) || bytes == be_bytes(units)
}

/// `data`, then zero bytes up to twice the length of `data` and two more.
pub open spec fn padded(data: Seq<u8>) -> Seq<u8> {
    data + Seq::new(data.len() + 2, |i: int| 0u8)
}

/// The UTF-16 code units of `text`.
pub fn encode_wide(text: &str) -> (r: Vec<u16>)
    ensures
        r@ == utf16(text@),
{
    let mut units: Vec<u16> = Vec::new();
    for c in it: text.chars()
        invariant
            it.seq() == text@,
            units@ == utf16(text@.take(it.index() as int)),
    {
        assert(text@.take(it.index() + 1).drop_last() == text@.take(it.index() as int));
        let v: u32 = c as u32;
        if v < 0x10000 {
            units.push(v as u16);
        } else {
            let w: u32 = v - 0x10000;
            units.push((0xD800 + w / 0x400) as u16);
            units.push((0xDC00 + w % 0x400) as u16);
        }
    }
    assert(text@.take(text@.len() as int) == text@);
    units
}

/// The UTF-16 code units of `name`, ending in a zero unit: one is added
/// unless the name already ends in one.
pub fn encode_wide_nul(name: &str) -> (r: Vec<u16>)
    ensures
        r@ == (if utf16(name@).len() > 0 && utf16(name@).last() == 0 {
            utf16(name@)
        } else {
            utf16(name@).push(0u16)
        }),
{
    let mut units = encode_wide(name);
    let n = units.len();
    if n == 0 || units[n - 1] != 0 {
        units.push(0);
    }
    units
}

/// Views the memory of the code units as bytes, through
/// `bytemuck::cast_slice`. The cast yields two bytes for each unit, in the
/// unit's place and in the machine's byte order; from `u16` to `u8` it has
/// no input on which it fails.
#[verifier::external_body]
fn cast_units(units: &[u16]) -> (r: &[u8])
    ensures
        memory_bytes(units@, r@),
{
    bytemuck::cast_slice(units)
}

/// Views the memory of the code units as bytes, through
/// `bytemuck::checked::cast_slice`. The cast yields two bytes for each unit,
/// in the unit's place and in the machine's byte order; every bit pattern is
/// a byte, so from `u16` to `u8` it has no input on which it fails.
#[verifier::external_body]
fn checked_cast_units(units: &[u16]) -> (r: &[u8])
    ensures
        memory_bytes(units@, r@),
{
    bytemuck::checked::cast_slice(units)
}

/// The bytes of `text` as UTF-16, as the machine holds it in memory.
pub fn wide_bytes(text: &str) -> (r: Vec<u8>)
    ensures
        memory_bytes(utf16(text@), r@),
{
    let units = encode_wide(text);
    vstd::slice::slice_to_vec(checked_cast_units(units.as_slice()))
}

/// A copy of `data` for handing a string to the host: the bytes, then zero
/// bytes, in a buffer of twice the length of `data` and two more.
pub fn string_buffer(data: &[u8]) -> (r: Vec<u8>)
    ensures
        r@ == padded(data@),
{
    let mut out: Vec<u8> = Vec::new();
    out.extend_from_slice(data);
    let n = data.len();
    let mut i: usize = 0;
    while i < n
        invariant
            n == data@.len(),
            i <= n,
            out@ == data@ + Seq::new(i as nat, |j: int| 0u8),
        decreases n - i,
    {
        out.push(0);
        i = i + 1;
    }
    out.push(0);
    out.push(0);
    out
}

/// The buffer that hands `text` to the host as a wide string: its UTF-16
/// code units and two zero units as the machine holds them in memory, then
/// zero bytes to twice that length and two more.
pub fn wide_string_buffer(text: &str) -> (r: Vec<u8>)
    ensures
        exists|bytes: Seq<u8>|
            memory_bytes(utf16(text@).push(0u16).push(0u16), bytes) && r@ == padded(bytes),
{
    let mut units = encode_wide(text);
    units.push(0);
    units.push(0);
    let bytes = cast_units(units.as_slice());
    string_buffer(bytes)
}

} // verus!

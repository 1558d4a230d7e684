//! The logic of remote memory access: where the parts of an interned name
//! lie, how a batch of addresses is read in one request, and what the bytes
//! of a read mean as text.
//!
//! The reads themselves are made by the caller; the functions here say where
//! to read and decode what came back.

use vstd::prelude::*;
use vstd::slice::slice_subrange;
use vstd::utf8::{decode_utf8, valid_utf8};
use crate::bytes::{field, le_value, read_i32_le, read_u16_le, read_u64_le, signed32};
use crate::gametypes::{tarray_of, TArray, TARRAY_BYTES};
use crate::text::{find_byte, find_zero_unit, first_index_of, lemma_first_index_of};

verus! {

/// The number of name entries that one page of the name table holds.
pub const NAME_PAGE_ENTRIES: u64 = 0x4000;

/// The size of a pointer in the observed process.
pub const POINTER_BYTES: u64 = 8;

/// Where the text of a name entry starts, counted from the entry.
pub const NAME_TEXT_OFFSET: u64 = 0x10;

/// The number of bytes that are read for the text of a name.
pub const NAME_TEXT_BYTES: usize = 64;

/// One read of the observed process: `len` bytes from `address` on.
#[derive(Clone, Copy, Debug, PartialEq, Eq, Structural)]
pub struct ReadRequest {
    pub address: u64,
    pub len: usize,
}

/// Why the bytes of a read are no UTF-16 text.
#[derive(Clone, Copy, Debug, PartialEq, Eq, Structural)]
pub enum DecodeError {
    /// The buffer holds an odd number of bytes.
    OddLength,
    /// The code units before the first zero unit are not well-formed UTF-16.
    InvalidUtf16,
}

/// The text that `String::from_utf8_lossy` makes of `bytes`.
pub uninterp spec fn utf8_lossy(bytes: Seq<u8>) -> Seq<char>;

/// Whether a code unit is the first half of a surrogate pair.
pub open spec fn is_high_surrogate(unit: u16) -> bool {
    0xD800 <= unit <= 0xDBFF
}

/// Whether a code unit is the second half of a surrogate pair.
pub open spec fn is_low_surrogate(unit: u16) -> bool {
    0xDC00 <= unit <= 0xDFFF
}

/// The character that a surrogate pair encodes.
pub open spec fn paired_char(high: u16, low: u16) -> char {
    (0x1_0000 + (high - 0xD800) * 0x400 + (low - 0xDC00)) as char
}

/// The text that well-formed UTF-16 encodes: a unit outside the surrogate
/// range is its own character, a high surrogate with the low surrogate
/// behind it is one character. Any other surrogate makes the whole sequence
/// ill-formed, and there is no text.
pub open spec fn utf16_text(units: Seq<u16>) -> Option<Seq<char>>
    decreases units.len(),
{
    if units.len() == 0 {
        Some(Seq::empty())
    } else if !is_high_surrogate(units[0]) && !is_low_surrogate(units[0]) {
        match utf16_text(units.skip(1)) {
            Some(rest) => Some(seq![units[0] as char] + rest),
            None => None,
        }
    } else if is_high_surrogate(units[0]) && units.len() >= 2 && is_low_surrogate(units[1]) {
        match utf16_text(units.skip(2)) {
            Some(rest) => Some(seq![paired_char(units[0], units[1])] + rest),
            None => None,
        }
    } else {
        None
    }
}

/// Calls `String::from_utf8_lossy` and takes the result as an owned string.
/// Trusted: the result is the named function of the bytes; for valid UTF-8
/// it is the text that the bytes encode, with nothing replaced; it has no
/// more characters than there are bytes, since every character, the
/// replacement character too, stands for at least one byte; and it holds a
/// NUL character only where a zero byte stood.
#[verifier::external_body]
pub(crate) fn lossy_string(bytes: &[u8]) -> (text: String)
    ensures
        text@ == utf8_lossy(bytes@),
        valid_utf8(bytes@) ==> text@ == decode_utf8(bytes@),
        text@.len() <= bytes@.len(),
        !bytes@.contains(0u8) ==> !text@.contains('\0'),
{
    String::from_utf8_lossy(bytes).into_owned()
}

/// Calls `String::from_utf16` and drops the detail of its error.
/// Trusted: the result is the text that the code units encode, and there is
/// none exactly where they are ill-formed.
#[verifier::external_body]
fn utf16_string(units: &[u16]) -> (text: Option<String>)
    ensures
        match text {
            Some(s) => utf16_text(units@) == Some(s@),
            None => utf16_text(units@) is None,
        },
{
    String::from_utf16(units).ok()
}

/// A name id widened to 64 bits without a sign, as a cast does it: a
/// negative id wraps around.
pub open spec fn widened(id: i32) -> nat {
    if id >= 0 {
        id as nat
    } else {
        (0x1_0000_0000_0000_0000 + id) as nat
    }
}

/// Where the pointer to the page of name `id` lies in the table at `table`.
pub open spec fn page_slot(table: u64, id: i32) -> int {
    table + (widened(id) / 0x4000) * 8
}

/// Where the pointer to the entry of name `id` lies in the page at `page`.
pub open spec fn entry_slot(page: u64, id: i32) -> int {
    page + (widened(id) % 0x4000) * 8
}

/// Widens a name id to 64 bits.
pub fn widen(id: i32) -> (wide: u64)
    ensures
        wide == widened(id),
{
    if id >= 0 {
        id as u64
    } else {
        let below: u64 = (-(id as i64)) as u64;
        u64::MAX - below + 1
    }
}

/// The address of the pointer to the page that holds name `id`, or `None`
/// where that address does not fit the address space.
pub fn name_page_slot(table: u64, id: i32) -> (slot: Option<u64>)
    ensures
        slot == if page_slot(table, id) <= u64::MAX {
            Some(page_slot(table, id) as u64)
        } else {
            None
        },
{
    let index: u64 = widen(id) / NAME_PAGE_ENTRIES;
    table.checked_add(index * POINTER_BYTES)
}

/// The address of the pointer to the entry of name `id` inside its page, or
/// `None` where that address does not fit the address space.
pub fn name_entry_slot(page: u64, id: i32) -> (slot: Option<u64>)
    ensures
        slot == if entry_slot(page, id) <= u64::MAX {
            Some(entry_slot(page, id) as u64)
        } else {
            None
        },
{
    let offset: u64 = widen(id) % NAME_PAGE_ENTRIES;
    page.checked_add(offset * POINTER_BYTES)
}

/// The read that fetches the text of the name entry at `entry`, or `None`
/// where the text would start beyond the address space.
pub fn name_text_request(entry: u64) -> (request: Option<ReadRequest>)
    ensures
        request == if entry + NAME_TEXT_OFFSET <= u64::MAX {
            Some(ReadRequest { address: (entry + NAME_TEXT_OFFSET) as u64, len: NAME_TEXT_BYTES })
        } else {
            None
        },
{
    match entry.checked_add(NAME_TEXT_OFFSET) {
        Some(address) => Some(ReadRequest { address, len: NAME_TEXT_BYTES }),
        None => None,
    }
}

/// The read of `len` bytes at `offset` from `base`, or `None` where the field
/// would start beyond the address space.
pub fn field_request(base: u64, offset: u64, len: usize) -> (request: Option<ReadRequest>)
    ensures
        request == if base + offset <= u64::MAX {
            Some(ReadRequest { address: (base + offset) as u64, len })
        } else {
            None
        },
{
    match base.checked_add(offset) {
        Some(address) => Some(ReadRequest { address, len }),
        None => None,
    }
}

/// What a read of a pointer stands for: the pointer, or null where the read
/// failed or did not bring eight bytes.
pub open spec fn pointer_read(data: Option<Seq<u8>>) -> u64 {
    match data {
        Some(bytes) => if bytes.len() == 8 {
            le_value(bytes) as u64
        } else {
            0
        },
        None => 0,
    }
}

/// What a read of a name id stands for: the id, or the null id where the
/// read failed or did not bring four bytes.
pub open spec fn name_id_read(data: Option<Seq<u8>>) -> i32 {
    match data {
        Some(bytes) => if bytes.len() == 4 {
            signed32(le_value(bytes)) as i32
        } else {
            0
        },
        None => 0,
    }
}

/// What a read of an array header stands for: the header, or the empty
/// array where the read failed or did not bring a whole header.
pub open spec fn array_read(data: Option<Seq<u8>>) -> TArray {
    match data {
        Some(bytes) => if bytes.len() == TARRAY_BYTES {
            tarray_of(bytes)
        } else {
            TArray { data_ptr: 0, count: 0, max: 0 }
        },
        None => TArray { data_ptr: 0, count: 0, max: 0 },
    }
}

/// The view of what a read brought.
pub open spec fn read_view(data: Option<&[u8]>) -> Option<Seq<u8>> {
    match data {
        Some(bytes) => Some(bytes@),
        None => None,
    }
}

/// Takes what a read brought as a pointer; a failed read counts as null.
pub fn pointer_or_null(data: Option<&[u8]>) -> (pointer: u64)
    ensures
        pointer == pointer_read(read_view(data)),
{
    match data {
        Some(bytes) => {
            if bytes.len() == 8 {
                assert(field(bytes@, 0, 8) =~= bytes@);
                read_u64_le(bytes, 0)
            } else {
                0
            }
        },
        None => 0,
    }
}

/// Takes what a read brought as a name id; a failed read counts as the null
/// id.
pub fn name_id_or_null(data: Option<&[u8]>) -> (id: i32)
    ensures
        id == name_id_read(read_view(data)),
{
    match data {
        Some(bytes) => {
            if bytes.len() == 4 {
                assert(field(bytes@, 0, 4) =~= bytes@);
                read_i32_le(bytes, 0)
            } else {
                0
            }
        },
        None => 0,
    }
}

/// Takes what a read brought as an array header; a failed read counts as the
/// empty array.
pub fn array_or_default(data: Option<&[u8]>) -> (array: TArray)
    ensures
        array == array_read(read_view(data)),
{
    match data {
        Some(bytes) => match TArray::decode(bytes) {
            Some(array) => array,
            None => TArray::default(),
        },
        None => TArray::default(),
    }
}

/// The bytes of a buffer before its first zero byte: all of it, where it
/// holds none.
pub open spec fn until_nul(bytes: Seq<u8>) -> Seq<u8> {
    bytes.take(first_index_of(bytes, 0))
}

/// Reads a buffer as a zero-terminated string: the bytes before the first
/// zero byte, made into text with every invalid sequence replaced. The text
/// has no more characters than the buffer has bytes, and no NUL among them.
pub fn decode_c_string(buf: &[u8]) -> (text: String)
    ensures
        text@ == utf8_lossy(until_nul(buf@)),
        valid_utf8(until_nul(buf@)) ==> text@ == decode_utf8(until_nul(buf@)),
        text@.len() <= until_nul(buf@).len() <= buf@.len(),
        !text@.contains('\0'),
{
    let end: usize = find_byte(buf, 0, 0);
    assert(buf@.skip(0) =~= buf@);
    let head = slice_subrange(buf, 0, end);
    proof {
        assert(head@ =~= until_nul(buf@));
        lemma_first_index_of(buf@, 0u8);
        assert(!head@.contains(0u8)) by {
            if head@.contains(0u8) {
                let k = choose|k: int| 0 <= k < head@.len() && head@[k] == 0u8;
                assert(buf@[k] == 0u8);
            }
        }
    }
    lossy_string(head)
}

/// The code units that a buffer holds, each of two bytes, little-endian. A
/// last odd byte belongs to no unit.
pub open spec fn units_of(bytes: Seq<u8>) -> Seq<u16> {
    Seq::new((bytes.len() / 2) as nat, |i: int| le_value(field(bytes, 2 * i, 2)) as u16)
}

/// The code units before the first zero unit: all of them, where there is
/// none.
pub open spec fn until_zero_unit(units: Seq<u16>) -> Seq<u16> {
    units.take(first_index_of(units, 0u16))
}

/// What `decode_utf16_string` gives for a buffer.
pub open spec fn utf16_reading(bytes: Seq<u8>) -> Result<Seq<char>, DecodeError> {
    if bytes.len() % 2 != 0 {
        Err(DecodeError::OddLength)
    } else {
        match utf16_text(until_zero_unit(units_of(bytes))) {
            Some(text) => Ok(text),
            None => Err(DecodeError::InvalidUtf16),
        }
    }
}

/// Reads a buffer as zero-terminated UTF-16 text, little-endian. A buffer
/// of odd length is refused, and so is one whose units before the first
/// zero unit are not well-formed.
pub fn decode_utf16_string(buf: &[u8]) -> (text: Result<String, DecodeError>)
    ensures
        match text {
            Ok(s) => utf16_reading(buf@) == Ok::<Seq<char>, DecodeError>(s@),
            Err(e) => utf16_reading(buf@) == Err::<Seq<char>, DecodeError>(e),
        },
{
    if buf.len() % 2 != 0 {
        return Err(DecodeError::OddLength);
    }
    let count: usize = buf.len() / 2;
    let mut units: Vec<u16> = Vec::new();
    let mut i: usize = 0;
    while i < count
        invariant
            count == buf@.len() / 2,
            buf@.len() % 2 == 0,
            buf@.len() <= usize::MAX,
            0 <= i <= count,
            units@.len() == i,
            forall|k: int| 0 <= k < i ==> units@[k] == units_of(buf@)[k],
        decreases count - i,
    {
        let unit: u16 = read_u16_le(buf, 2 * i);
        units.push(unit);
        i = i + 1;
    }
    assert(units@ =~= units_of(buf@));
    let end: usize = find_zero_unit(units.as_slice());
    let head = slice_subrange(units.as_slice(), 0, end);
    assert(head@ =~= until_zero_unit(units_of(buf@)));
    match utf16_string(head) {
        Some(s) => Ok(s),
        None => Err(DecodeError::InvalidUtf16),
    }
}

/// The addresses that a buffer holds, each of eight bytes, little-endian.
/// Bytes after the last whole address belong to none.
pub open spec fn addresses_of(bytes: Seq<u8>) -> Seq<u64> {
    Seq::new((bytes.len() / 8) as nat, |i: int| le_value(field(bytes, 8 * i, 8)) as u64)
}

/// The one read that fetches all the elements of an array of addresses.
pub open spec fn batch_of(array: TArray) -> Option<ReadRequest> {
    if array.count >= 0 && 8 * array.count <= usize::MAX {
        Some(ReadRequest { address: array.data_ptr, len: (8 * array.count) as usize })
    } else {
        None
    }
}

/// Plans the read of an array of addresses: one request that covers the
/// whole array, however many elements it has. An array with a negative
/// count, or one too large to hold in memory, gets no request.
pub fn batch_request(array: &TArray) -> (request: Option<ReadRequest>)
    ensures
        request == batch_of(*array),
{
    if array.count < 0 {
        return None;
    }
    let count: u64 = array.count as u64;
    let bytes: u64 = count * POINTER_BYTES;
    if bytes > usize::MAX as u64 {
        return None;
    }
    Some(ReadRequest { address: array.data_ptr, len: bytes as usize })
}

/// Decodes the addresses that a batch read brought, in the order of the
/// array.
pub fn decode_addresses(buf: &[u8]) -> (addresses: Vec<u64>)
    ensures
        addresses@ == addresses_of(buf@),
{
    let count: usize = buf.len() / 8;
    let mut addresses: Vec<u64> = Vec::new();
    let mut i: usize = 0;
    while i < count
        invariant
            count == buf@.len() / 8,
            buf@.len() <= usize::MAX,
            0 <= i <= count,
            addresses@.len() == i,
            forall|k: int| 0 <= k < i ==> addresses@[k] == addresses_of(buf@)[k],
        decreases count - i,
    {
        let address: u64 = read_u64_le(buf, 8 * i);
        addresses.push(address);
        i = i + 1;
    }
    assert(addresses@ =~= addresses_of(buf@));
    addresses
}

/// Where element `index` of an array lies, for elements of `stride` bytes.
pub open spec fn element_slot(array: TArray, index: i32, stride: u32) -> int {
    array.data_ptr + index * stride
}

/// The address of element `index` of an array, or `None` where the index is
/// negative or the address does not fit the address space. The index is not
/// held against the array's count.
pub fn element_address(array: &TArray, index: i32, stride: u32) -> (address: Option<u64>)
    ensures
        address == if index >= 0 && element_slot(*array, index, stride) <= u64::MAX {
            Some(element_slot(*array, index, stride) as u64)
        } else {
            None
        },
{
    if index < 0 {
        return None;
    }
    assert(0 <= index * stride <= 0x7fff_ffff * 0xffff_ffff) by (nonlinear_arith)
        requires
            0 <= index <= 0x7fff_ffff,
            0 <= stride <= 0xffff_ffff,
    ;
    let offset: u64 = (index as u64) * (stride as u64);
    array.data_ptr.checked_add(offset)
}

/// Where the pointer to a secondary level lies: the levels of a world
/// after the first one, which is the persistent level and has a scan of its
/// own.
pub open spec fn level_slot_of(levels: TArray, index: i32) -> Option<u64> {
    if 1 <= index < levels.count && element_slot(levels, index, 8) <= u64::MAX {
        Some(element_slot(levels, index, 8) as u64)
    } else {
        None
    }
}

/// The address of the pointer to secondary level `index`, or `None` where
/// `index` names the persistent level or no level at all.
pub fn level_slot(levels: &TArray, index: i32) -> (slot: Option<u64>)
    ensures
        slot == level_slot_of(*levels, index),
{
    if index < 1 || index >= levels.count {
        return None;
    }
    element_address(levels, index, 8)
}

} // verus!

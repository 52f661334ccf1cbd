//! The LParse binary container: a "CNML" envelope holding named, typed
//! entries.
//!
//! A file is a 4-byte magic tag `"CNML"`, a little-endian `u32` version id,
//! then exactly `num_entries` fixed-size entry headers (16 name bytes, type
//! tag, element count, byte offset), then the packed payload regions the
//! headers point at. Reads past the end of the buffer yield zero elements,
//! mirroring the engine's tolerant decoding; missing header bytes are an
//! error.

use vstd::prelude::*;

use crate::Rect;

verus! {

/// Errors when loading or saving lparse containers.
#[derive(Debug)]
pub enum Error {
    /// The buffer is not a CNM LParse file (bad magic or too short).
    NotLParseFile,
    /// The version id is not one this parser supports.
    UnknownVersion(u32),
    /// The file (or a request made of it) is corrupted; the string says why.
    Corrupted(String),
    /// The entry with the given name and slot index is corrupted.
    EntryCorrupted(String, usize),
    /// The entry with the given name and slot index has an unknown type tag.
    UnknownEntryType(String, usize, u32),
    /// Saving was asked to write more entries than the version allows:
    /// version id, allowed count, actual count.
    EntryOverflow(u32, usize, usize),
    /// Paired level files carry different version ids.
    MismatchedVersions(u32, u32),
    /// No entry with the given name exists.
    CannotFindEntry(String),
    /// An entry held a different element type than the one requested:
    /// expected type tag, actual type tag.
    UnexpectedEntryType(u32, u32),
}

// ---------------------------------------------------------------------------
// Little-endian primitives.
// ---------------------------------------------------------------------------

/// A `u16` assembled from two little-endian bytes.
pub open spec fn spec_le16(b0: u8, b1: u8) -> u16 {
    (b0 as u16) | ((b1 as u16) << 8u16)
}

/// A `u32` assembled from four little-endian bytes.
pub open spec fn spec_le32(b0: u8, b1: u8, b2: u8, b3: u8) -> u32 {
    (b0 as u32) | ((b1 as u32) << 8u32) | ((b2 as u32) << 16u32) | ((b3 as u32) << 24u32)
}

/// The two little-endian bytes of a `u16`.
pub open spec fn spec_u16_le(x: u16) -> Seq<u8> {
    seq![(x & 0xff) as u8, ((x >> 8u16) & 0xff) as u8]
}

/// The four little-endian bytes of a `u32`.
pub open spec fn spec_u32_le(x: u32) -> Seq<u8> {
    seq![
        (x & 0xff) as u8,
        ((x >> 8u32) & 0xff) as u8,
        ((x >> 16u32) & 0xff) as u8,
        ((x >> 24u32) & 0xff) as u8,
    ]
}

/// The byte at `pos`, or zero when the buffer ends before it.
pub open spec fn spec_u8_at(s: Seq<u8>, pos: int) -> u8 {
    if 0 <= pos && pos + 1 <= s.len() {
        s[pos]
    } else {
        0
    }
}

/// The `u16` at `pos`, or zero when the buffer ends before its last byte.
pub open spec fn spec_u16_at(s: Seq<u8>, pos: int) -> u16 {
    if 0 <= pos && pos + 2 <= s.len() {
        spec_le16(s[pos], s[pos + 1])
    } else {
        0
    }
}

/// The `u32` at `pos`, or zero when the buffer ends before its last byte.
pub open spec fn spec_u32_at(s: Seq<u8>, pos: int) -> u32 {
    if 0 <= pos && pos + 4 <= s.len() {
        spec_le32(s[pos], s[pos + 1], s[pos + 2], s[pos + 3])
    } else {
        0
    }
}

/// The `i32` at `pos` (two's complement of the `u32` there).
pub open spec fn spec_i32_at(s: Seq<u8>, pos: int) -> i32 {
    spec_u32_at(s, pos) as i32
}

/// The `Rect` at `pos`: four consecutive `i32`s.
pub open spec fn spec_rect_at(s: Seq<u8>, pos: int) -> Rect {
    Rect {
        x: spec_i32_at(s, pos),
        y: spec_i32_at(s, pos + 4),
        w: spec_i32_at(s, pos + 8),
        h: spec_i32_at(s, pos + 12),
    }
}

/// Reads the byte at `pos`, or zero past the end.
pub fn read_u8_at(data: &[u8], pos: u64) -> (r: u8)
    ensures
        r == spec_u8_at(data@, pos as int),
{
    if pos < data.len() as u64 {
        *vstd::slice::slice_index_get(data, pos as usize)
    } else {
        0
    }
}

/// Reads the little-endian `u16` at `pos`, or zero past the end.
pub fn read_u16_at(data: &[u8], pos: u64) -> (r: u16)
    ensures
        r == spec_u16_at(data@, pos as int),
{
    let n = data.len() as u64;
    if n >= 2 && pos <= n - 2 {
        let b0 = *vstd::slice::slice_index_get(data, pos as usize);
        let b1 = *vstd::slice::slice_index_get(data, (pos + 1) as usize);
        (b0 as u16) | ((b1 as u16) << 8u16)
    } else {
        0
    }
}

/// Reads the little-endian `u32` at `pos`, or zero past the end.
pub fn read_u32_at(data: &[u8], pos: u64) -> (r: u32)
    ensures
        r == spec_u32_at(data@, pos as int),
{
    let n = data.len() as u64;
    if n >= 4 && pos <= n - 4 {
        let b0 = *vstd::slice::slice_index_get(data, pos as usize);
        let b1 = *vstd::slice::slice_index_get(data, (pos + 1) as usize);
        let b2 = *vstd::slice::slice_index_get(data, (pos + 2) as usize);
        let b3 = *vstd::slice::slice_index_get(data, (pos + 3) as usize);
        (b0 as u32) | ((b1 as u32) << 8u32) | ((b2 as u32) << 16u32) | ((b3 as u32) << 24u32)
    } else {
        0
    }
}

/// Reads the little-endian `i32` at `pos`, or zero past the end.
pub fn read_i32_at(data: &[u8], pos: u64) -> (r: i32)
    ensures
        r == spec_i32_at(data@, pos as int),
{
    read_u32_at(data, pos) as i32
}

/// Appends the two little-endian bytes of a `u16`.
pub fn push_u16_le(out: &mut Vec<u8>, x: u16)
    ensures
        final(out)@ == old(out)@ + spec_u16_le(x),
{
    out.push((x & 0xff) as u8);
    out.push(((x >> 8u16) & 0xff) as u8);
    proof {
        assert(out@ =~= old(out)@ + spec_u16_le(x));
    }
}

/// Appends the four little-endian bytes of a `u32`.
pub fn push_u32_le(out: &mut Vec<u8>, x: u32)
    ensures
        final(out)@ == old(out)@ + spec_u32_le(x),
{
    out.push((x & 0xff) as u8);
    out.push(((x >> 8u32) & 0xff) as u8);
    out.push(((x >> 16u32) & 0xff) as u8);
    out.push(((x >> 24u32) & 0xff) as u8);
    proof {
        assert(out@ =~= old(out)@ + spec_u32_le(x));
    }
}

/// Appends the four little-endian bytes of an `i32`.
pub fn push_i32_le(out: &mut Vec<u8>, x: i32)
    ensures
        final(out)@ == old(out)@ + spec_u32_le(x as u32),
{
    push_u32_le(out, x as u32);
}

/// Reading two little-endian bytes gives back the `u16` they came from.
pub proof fn lemma_le16_round_trip(x: u16)
    ensures
        spec_le16(spec_u16_le(x)[0], spec_u16_le(x)[1]) == x,
{
    let b0 = (x & 0xff) as u8;
    let b1 = ((x >> 8u16) & 0xff) as u8;
    assert((b0 as u16) | ((b1 as u16) << 8u16) == x) by (bit_vector)
        requires
            b0 == (x & 0xff) as u8 && b1 == ((x >> 8u16) & 0xff) as u8,
    ;
}

/// Reading four little-endian bytes gives back the `u32` they came from.
pub proof fn lemma_le32_round_trip(x: u32)
    ensures
        spec_le32(spec_u32_le(x)[0], spec_u32_le(x)[1], spec_u32_le(x)[2], spec_u32_le(x)[3])
            == x,
{
    let b0 = (x & 0xff) as u8;
    let b1 = ((x >> 8u32) & 0xff) as u8;
    let b2 = ((x >> 16u32) & 0xff) as u8;
    let b3 = ((x >> 24u32) & 0xff) as u8;
    assert((b0 as u32) | ((b1 as u32) << 8u32) | ((b2 as u32) << 16u32) | ((b3 as u32) << 24u32)
        == x) by (bit_vector)
        requires
            b0 == (x & 0xff) as u8 && b1 == ((x >> 8u32) & 0xff) as u8 && b2 == ((x >> 16u32)
                & 0xff) as u8 && b3 == ((x >> 24u32) & 0xff) as u8,
    ;
}

// ---------------------------------------------------------------------------
// Entry data.
// ---------------------------------------------------------------------------

/// The payload of one container entry: an array of a single element type.
///
/// The engine's `f32` arrays are held as raw bit patterns (`F32(Vec<u32>)`),
/// which reproduces the file bytes exactly.
#[derive(Debug, Clone, PartialEq, Default)]
pub enum EntryData {
    /// An unused slot.
    #[default]
    Null,
    /// A used slot that carries no data.
    Dummy,
    /// An array of `i32`s (type tag 2).
    I32(Vec<i32>),
    /// An array of `u32`s (type tag 3).
    U32(Vec<u32>),
    /// An array of bytes (type tag 4).
    U8(Vec<u8>),
    /// An array of `u16`s (type tag 5).
    U16(Vec<u16>),
    /// An array of `f32` bit patterns (type tag 6).
    F32(Vec<u32>),
    /// An array of rectangles, four `i32`s each (type tag 7).
    Rect(Vec<Rect>),
}

/// The type tag an entry is stored under.
pub open spec fn spec_typeid(e: &EntryData) -> u32 {
    match e {
        EntryData::Null => 0,
        EntryData::Dummy => 1,
        EntryData::I32(_) => 2,
        EntryData::U32(_) => 3,
        EntryData::U8(_) => 4,
        EntryData::U16(_) => 5,
        EntryData::F32(_) => 6,
        EntryData::Rect(_) => 7,
    }
}

/// The number of elements an entry holds.
pub open spec fn spec_entry_len(e: &EntryData) -> nat {
    match e {
        EntryData::Null => 0,
        EntryData::Dummy => 0,
        EntryData::I32(v) => v@.len(),
        EntryData::U32(v) => v@.len(),
        EntryData::U8(v) => v@.len(),
        EntryData::U16(v) => v@.len(),
        EntryData::F32(v) => v@.len(),
        EntryData::Rect(v) => v@.len(),
    }
}

/// The size in bytes of one element of the given type tag.
pub open spec fn spec_elem_size(typeid: u32) -> nat {
    if typeid == 2 || typeid == 3 || typeid == 6 {
        4
    } else if typeid == 4 {
        1
    } else if typeid == 5 {
        2
    } else if typeid == 7 {
        16
    } else {
        0
    }
}

/// The saved size in bytes of an entry's payload.
pub open spec fn spec_data_size(e: &EntryData) -> nat {
    spec_entry_len(e) * spec_elem_size(spec_typeid(e))
}

/// The bytes of a rectangle: four little-endian `i32`s.
pub open spec fn spec_rect_le(r: Rect) -> Seq<u8> {
    spec_u32_le(r.x as u32) + spec_u32_le(r.y as u32) + spec_u32_le(r.w as u32) + spec_u32_le(
        r.h as u32,
    )
}

/// The bytes of element `i` of an entry.
pub open spec fn spec_elem_bytes(e: &EntryData, i: int) -> Seq<u8> {
    match e {
        EntryData::Null => Seq::empty(),
        EntryData::Dummy => Seq::empty(),
        EntryData::I32(v) => spec_u32_le(v@[i] as u32),
        EntryData::U32(v) => spec_u32_le(v@[i]),
        EntryData::U8(v) => seq![v@[i]],
        EntryData::U16(v) => spec_u16_le(v@[i]),
        EntryData::F32(v) => spec_u32_le(v@[i]),
        EntryData::Rect(v) => spec_rect_le(v@[i]),
    }
}

/// The concatenated bytes of the first `n` elements of an entry.
pub open spec fn spec_payload_take(e: &EntryData, n: int) -> Seq<u8>
    decreases n,
{
    if n <= 0 {
        Seq::empty()
    } else {
        spec_payload_take(e, n - 1) + spec_elem_bytes(e, n - 1)
    }
}

/// The saved payload bytes of an entry.
pub open spec fn spec_payload(e: &EntryData) -> Seq<u8> {
    spec_payload_take(e, spec_entry_len(e) as int)
}

/// Whether `r` is the decoding of a `len`-element payload with type tag
/// `typeid` at byte position `pos` of `data`. Elements that run past the end
/// of the buffer decode as zero.
pub open spec fn is_decoded_payload(
    r: &EntryData,
    typeid: u32,
    len: nat,
    data: Seq<u8>,
    pos: int,
) -> bool {
    match r {
        EntryData::Null => false,
        EntryData::Dummy => false,
        EntryData::I32(v) => typeid == 2 && v@.len() == len && (forall|i: int|
            0 <= i < len ==> v@[i] == spec_i32_at(data, pos + 4 * i)),
        EntryData::U32(v) => typeid == 3 && v@.len() == len && (forall|i: int|
            0 <= i < len ==> v@[i] == spec_u32_at(data, pos + 4 * i)),
        EntryData::U8(v) => typeid == 4 && v@.len() == len && (forall|i: int|
            0 <= i < len ==> v@[i] == spec_u8_at(data, pos + i)),
        EntryData::U16(v) => typeid == 5 && v@.len() == len && (forall|i: int|
            0 <= i < len ==> v@[i] == spec_u16_at(data, pos + 2 * i)),
        EntryData::F32(v) => typeid == 6 && v@.len() == len && (forall|i: int|
            0 <= i < len ==> v@[i] == spec_u32_at(data, pos + 4 * i)),
        EntryData::Rect(v) => typeid == 7 && v@.len() == len && (forall|i: int|
            0 <= i < len ==> v@[i] == spec_rect_at(data, pos + 16 * i)),
    }
}

impl EntryData {
    /// The type tag this entry is stored under.
    pub fn get_typeid(&self) -> (r: u32)
        ensures
            r == spec_typeid(self),
    {
        match self {
            EntryData::Null => 0,
            EntryData::Dummy => 1,
            EntryData::I32(_) => 2,
            EntryData::U32(_) => 3,
            EntryData::U8(_) => 4,
            EntryData::U16(_) => 5,
            EntryData::F32(_) => 6,
            EntryData::Rect(_) => 7,
        }
    }

    /// The number of elements this entry holds.
    pub fn get_entry_len(&self) -> (r: usize)
        ensures
            r == spec_entry_len(self),
    {
        match self {
            EntryData::Null => 0,
            EntryData::Dummy => 0,
            EntryData::I32(v) => v.len(),
            EntryData::U32(v) => v.len(),
            EntryData::U8(v) => v.len(),
            EntryData::U16(v) => v.len(),
            EntryData::F32(v) => v.len(),
            EntryData::Rect(v) => v.len(),
        }
    }

    /// The saved size in bytes of this entry's payload.
    pub fn get_saved_data_size(&self) -> (r: u64)
        requires
            spec_data_size(self) <= u64::MAX,
        ensures
            r == spec_data_size(self),
    {
        let len = self.get_entry_len() as u64;
        match self {
            EntryData::Null => 0,
            EntryData::Dummy => 0,
            EntryData::I32(_) => len * 4,
            EntryData::U32(_) => len * 4,
            EntryData::U8(_) => len,
            EntryData::U16(_) => len * 2,
            EntryData::F32(_) => len * 4,
            EntryData::Rect(_) => len * 16,
        }
    }

    /// The `i32` elements, or `UnexpectedEntryType` when the entry holds
    /// another type.
    pub fn try_get_i32(&self) -> (r: Result<&Vec<i32>, Error>)
        ensures
            match r {
                Ok(v) => *self == EntryData::I32(*v),
                Err(e) => !(*self is I32) && e == Error::UnexpectedEntryType(
                    2,
                    spec_typeid(self),
                ),
            },
    {
        match self {
            EntryData::I32(v) => Ok(v),
            _ => Err(Error::UnexpectedEntryType(2, self.get_typeid())),
        }
    }

    /// The `u32` elements, or `UnexpectedEntryType` when the entry holds
    /// another type.
    pub fn try_get_u32(&self) -> (r: Result<&Vec<u32>, Error>)
        ensures
            match r {
                Ok(v) => *self == EntryData::U32(*v),
                Err(e) => !(*self is U32) && e == Error::UnexpectedEntryType(
                    3,
                    spec_typeid(self),
                ),
            },
    {
        match self {
            EntryData::U32(v) => Ok(v),
            _ => Err(Error::UnexpectedEntryType(3, self.get_typeid())),
        }
    }

    /// The byte elements, or `UnexpectedEntryType` when the entry holds
    /// another type.
    pub fn try_get_u8(&self) -> (r: Result<&Vec<u8>, Error>)
        ensures
            match r {
                Ok(v) => *self == EntryData::U8(*v),
                Err(e) => !(*self is U8) && e == Error::UnexpectedEntryType(4, spec_typeid(self)),
            },
    {
        match self {
            EntryData::U8(v) => Ok(v),
            _ => Err(Error::UnexpectedEntryType(4, self.get_typeid())),
        }
    }

    /// The `u16` elements, or `UnexpectedEntryType` when the entry holds
    /// another type.
    pub fn try_get_u16(&self) -> (r: Result<&Vec<u16>, Error>)
        ensures
            match r {
                Ok(v) => *self == EntryData::U16(*v),
                Err(e) => !(*self is U16) && e == Error::UnexpectedEntryType(
                    5,
                    spec_typeid(self),
                ),
            },
    {
        match self {
            EntryData::U16(v) => Ok(v),
            _ => Err(Error::UnexpectedEntryType(5, self.get_typeid())),
        }
    }

    /// The `f32` bit-pattern elements, or `UnexpectedEntryType` when the
    /// entry holds another type.
    pub fn try_get_f32(&self) -> (r: Result<&Vec<u32>, Error>)
        ensures
            match r {
                Ok(v) => *self == EntryData::F32(*v),
                Err(e) => !(*self is F32) && e == Error::UnexpectedEntryType(
                    6,
                    spec_typeid(self),
                ),
            },
    {
        match self {
            EntryData::F32(v) => Ok(v),
            _ => Err(Error::UnexpectedEntryType(6, self.get_typeid())),
        }
    }

    /// The rectangle elements, or `UnexpectedEntryType` when the entry holds
    /// another type.
    pub fn try_get_rect(&self) -> (r: Result<&Vec<Rect>, Error>)
        ensures
            match r {
                Ok(v) => *self == EntryData::Rect(*v),
                Err(e) => !(*self is Rect) && e == Error::UnexpectedEntryType(
                    7,
                    spec_typeid(self),
                ),
            },
    {
        match self {
            EntryData::Rect(v) => Ok(v),
            _ => Err(Error::UnexpectedEntryType(7, self.get_typeid())),
        }
    }

    /// Decodes a `len`-element payload of type tag `typeid` from byte
    /// position `pos` of `data`; elements past the end of the buffer are
    /// zero.
    fn decode_payload(typeid: u32, len: usize, data: &[u8], pos: u32) -> (r: EntryData)
        requires
            2 <= typeid <= 7,
            len <= u32::MAX,
        ensures
            is_decoded_payload(&r, typeid, len as nat, data@, pos as int),
    {
        if typeid == 2 {
            let mut v: Vec<i32> = Vec::new();
            let mut i: usize = 0;
            while i < len
                invariant
                    i <= len,
                    len <= u32::MAX,
                    v@.len() == i,
                    forall|j: int| 0 <= j < i ==> v@[j] == spec_i32_at(data@, pos + 4 * j),
                decreases len - i,
            {
                v.push(read_i32_at(data, pos as u64 + 4 * (i as u64)));
                i = i + 1;
            }
            EntryData::I32(v)
        } else if typeid == 3 {
            let mut v: Vec<u32> = Vec::new();
            let mut i: usize = 0;
            while i < len
                invariant
                    i <= len,
                    len <= u32::MAX,
                    v@.len() == i,
                    forall|j: int| 0 <= j < i ==> v@[j] == spec_u32_at(data@, pos + 4 * j),
                decreases len - i,
            {
                v.push(read_u32_at(data, pos as u64 + 4 * (i as u64)));
                i = i + 1;
            }
            EntryData::U32(v)
        } else if typeid == 4 {
            let mut v: Vec<u8> = Vec::new();
            let mut i: usize = 0;
            while i < len
                invariant
                    i <= len,
                    len <= u32::MAX,
                    v@.len() == i,
                    forall|j: int| 0 <= j < i ==> v@[j] == spec_u8_at(data@, pos + j),
                decreases len - i,
            {
                v.push(read_u8_at(data, pos as u64 + i as u64));
                i = i + 1;
            }
            EntryData::U8(v)
        } else if typeid == 5 {
            let mut v: Vec<u16> = Vec::new();
            let mut i: usize = 0;
            while i < len
                invariant
                    i <= len,
                    len <= u32::MAX,
                    v@.len() == i,
                    forall|j: int| 0 <= j < i ==> v@[j] == spec_u16_at(data@, pos + 2 * j),
                decreases len - i,
            {
                v.push(read_u16_at(data, pos as u64 + 2 * (i as u64)));
                i = i + 1;
            }
            EntryData::U16(v)
        } else if typeid == 6 {
            let mut v: Vec<u32> = Vec::new();
            let mut i: usize = 0;
            while i < len
                invariant
                    i <= len,
                    len <= u32::MAX,
                    v@.len() == i,
                    forall|j: int| 0 <= j < i ==> v@[j] == spec_u32_at(data@, pos + 4 * j),
                decreases len - i,
            {
                v.push(read_u32_at(data, pos as u64 + 4 * (i as u64)));
                i = i + 1;
            }
            EntryData::F32(v)
        } else {
            let mut v: Vec<Rect> = Vec::new();
            let mut i: usize = 0;
            while i < len
                invariant
                    i <= len,
                    len <= u32::MAX,
                    v@.len() == i,
                    forall|j: int| 0 <= j < i ==> v@[j] == spec_rect_at(data@, pos + 16 * j),
                decreases len - i,
            {
                let base = pos as u64 + 16 * (i as u64);
                let x = read_i32_at(data, base);
                let y = read_i32_at(data, base + 4);
                let w = read_i32_at(data, base + 8);
                let h = read_i32_at(data, base + 12);
                v.push(Rect { x, y, w, h });
                i = i + 1;
            }
            EntryData::Rect(v)
        }
    }

    /// Appends this entry's payload bytes.
    fn save(&self, out: &mut Vec<u8>)
        ensures
            final(out)@ == old(out)@ + spec_payload(self),
    {
        match self {
            EntryData::Null => {
                proof {
                    assert(out@ =~= old(out)@ + spec_payload(self));
                }
            },
            EntryData::Dummy => {
                proof {
                    assert(out@ =~= old(out)@ + spec_payload(self));
                }
            },
            EntryData::I32(v) => {
                let mut i: usize = 0;
                while i < v.len()
                    invariant
                        i <= v.len(),
                        *self == EntryData::I32(*v),
                        out@ == old(out)@ + spec_payload_take(self, i as int),
                    decreases v.len() - i,
                {
                    push_i32_le(out, v[i]);
                    i = i + 1;
                }
            },
            EntryData::U32(v) => {
                let mut i: usize = 0;
                while i < v.len()
                    invariant
                        i <= v.len(),
                        *self == EntryData::U32(*v),
                        out@ == old(out)@ + spec_payload_take(self, i as int),
                    decreases v.len() - i,
                {
                    push_u32_le(out, v[i]);
                    i = i + 1;
                }
            },
            EntryData::U8(v) => {
                let mut i: usize = 0;
                while i < v.len()
                    invariant
                        i <= v.len(),
                        *self == EntryData::U8(*v),
                        out@ == old(out)@ + spec_payload_take(self, i as int),
                    decreases v.len() - i,
                {
                    out.push(v[i]);
                    proof {
                        assert(out@ =~= old(out)@ + spec_payload_take(self, i + 1));
                    }
                    i = i + 1;
                }
            },
            EntryData::U16(v) => {
                let mut i: usize = 0;
                while i < v.len()
                    invariant
                        i <= v.len(),
                        *self == EntryData::U16(*v),
                        out@ == old(out)@ + spec_payload_take(self, i as int),
                    decreases v.len() - i,
                {
                    push_u16_le(out, v[i]);
                    i = i + 1;
                }
            },
            EntryData::F32(v) => {
                let mut i: usize = 0;
                while i < v.len()
                    invariant
                        i <= v.len(),
                        *self == EntryData::F32(*v),
                        out@ == old(out)@ + spec_payload_take(self, i as int),
                    decreases v.len() - i,
                {
                    push_u32_le(out, v[i]);
                    i = i + 1;
                }
            },
            EntryData::Rect(v) => {
                let mut i: usize = 0;
                while i < v.len()
                    invariant
                        i <= v.len(),
                        *self == EntryData::Rect(*v),
                        out@ == old(out)@ + spec_payload_take(self, i as int),
                    decreases v.len() - i,
                {
                    let r = v[i];
                    push_i32_le(out, r.x);
                    push_i32_le(out, r.y);
                    push_i32_le(out, r.w);
                    push_i32_le(out, r.h);
                    i = i + 1;
                }
            },
        }
    }
}

} // verus!

verus! {

// ---------------------------------------------------------------------------
// Version specifications.
// ---------------------------------------------------------------------------

/// Per-version limits of the container format. Only version id 1 exists.
#[derive(Debug)]
pub struct VersionSpecs {
    version: u32,
    num_entries: usize,
    entry_name_size: usize,
    header_size: usize,
    entry_header_size: usize,
}

impl VersionSpecs {
    /// The version id.
    pub closed spec fn spec_version_id(self) -> u32 {
        self.version
    }

    /// The version's limits are the version-1 table.
    pub closed spec fn wf(self) -> bool {
        self.version == 1 && self.num_entries == 128 && self.entry_name_size == 16
            && self.header_size == 8 && self.entry_header_size == 28
    }

    /// Builds the limit table for a version id; only id 1 is supported.
    pub fn from_version(version: u32) -> (r: Result<Self, Error>)
        ensures
            match r {
                Ok(v) => version == 1 && v.wf() && v.spec_version_id() == 1,
                Err(e) => version != 1 && e == Error::UnknownVersion(version),
            },
    {
        if version == 1 {
            Ok(VersionSpecs {
                version,
                num_entries: 128,
                entry_name_size: 16,
                header_size: 8,
                entry_header_size: 28,
            })
        } else {
            Err(Error::UnknownVersion(version))
        }
    }

    /// The version id.
    pub fn get_version_id(&self) -> (r: u32)
        ensures
            r == self.spec_version_id(),
    {
        self.version
    }

    /// How many entry slots a file of this version holds.
    pub fn get_num_entries(&self) -> (r: usize)
        ensures
            r == 128 || !self.wf(),
            self.wf() ==> r == 128,
    {
        self.num_entries
    }

    /// The byte size of an entry name field.
    pub fn get_entry_name_size(&self) -> (r: usize)
        ensures
            self.wf() ==> r == 16,
    {
        self.entry_name_size
    }

    /// The byte size of the file header (magic tag and version id).
    pub fn get_header_size(&self) -> (r: usize)
        ensures
            self.wf() ==> r == 8,
    {
        self.header_size
    }

    /// The byte size of one entry header.
    pub fn get_entry_header_size(&self) -> (r: usize)
        ensures
            self.wf() ==> r == 28,
    {
        self.entry_header_size
    }
}

// ---------------------------------------------------------------------------
// The container.
// ---------------------------------------------------------------------------

/// A named entry of a container.
#[derive(Debug)]
pub struct Entry {
    /// The entry's name (at most 16 UTF-8 bytes survive a save).
    pub name: String,
    /// The entry's payload.
    pub data: EntryData,
}

/// Whether all entry names in `s` differ.
pub open spec fn unique_names(s: Seq<Entry>) -> bool {
    forall|i: int, j: int| 0 <= i < j < s.len() ==> s[i].name@ != s[j].name@
}

/// The name-to-payload map that a sequence of entries holds; later entries
/// with the same name win.
pub open spec fn spec_entries_map_of(s: Seq<Entry>) -> Map<Seq<char>, EntryData>
    decreases s.len(),
{
    if s.len() == 0 {
        Map::empty()
    } else {
        spec_entries_map_of(s.drop_last()).insert(s.last().name@, s.last().data)
    }
}

/// A name is in the map exactly when some entry carries it, and with unique
/// names each entry's data is what the map holds for its name.
pub proof fn lemma_entries_map_of(s: Seq<Entry>)
    ensures
        forall|n: Seq<char>|
            #[trigger] spec_entries_map_of(s).contains_key(n) <==> exists|i: int|
                0 <= i < s.len() && s[i].name@ == n,
        unique_names(s) ==> forall|i: int|
            0 <= i < s.len() ==> #[trigger] spec_entries_map_of(s)[s[i].name@] == s[i].data,
    decreases s.len(),
{
    if s.len() > 0 {
        lemma_entries_map_of(s.drop_last());
        assert forall|n: Seq<char>| #[trigger]
            spec_entries_map_of(s).contains_key(n) implies exists|i: int|
            0 <= i < s.len() && s[i].name@ == n by {
            if n == s.last().name@ {
                assert(s[s.len() - 1].name@ == n);
            } else {
                let i = choose|i: int| 0 <= i < s.drop_last().len() && s.drop_last()[i].name@ == n;
                assert(s[i].name@ == n);
            }
        }
        assert forall|n: Seq<char>| (exists|i: int| 0 <= i < s.len() && s[i].name@ == n)
            implies spec_entries_map_of(s).contains_key(n) by {
            let i = choose|i: int| 0 <= i < s.len() && s[i].name@ == n;
            if i < s.len() - 1 {
                assert(s.drop_last()[i].name@ == n);
            }
        }
        if unique_names(s) {
            assert(unique_names(s.drop_last())) by {
                assert(forall|i: int, j: int|
                    0 <= i < j < s.drop_last().len() ==> s.drop_last()[i].name@
                        != s.drop_last()[j].name@);
            }
            assert forall|i: int| 0 <= i < s.len() implies #[trigger]
                spec_entries_map_of(s)[s[i].name@] == s[i].data by {
                if i < s.len() - 1 {
                    assert(s[i].name@ != s.last().name@);
                    assert(s.drop_last()[i].name@ == s[i].name@);
                }
            }
        }
    }
}

/// Appending a fresh entry inserts it into the map view.
pub proof fn lemma_entries_map_push(s: Seq<Entry>, e: Entry)
    ensures
        spec_entries_map_of(s.push(e)) == spec_entries_map_of(s).insert(e.name@, e.data),
{
    assert(s.push(e).drop_last() =~= s);
    assert(s.push(e).last() == e);
}

/// Replacing the entry that already carries a name updates the map view the
/// same way an insert does.
pub proof fn lemma_entries_map_update(s: Seq<Entry>, i: int, e: Entry)
    requires
        unique_names(s),
        0 <= i < s.len(),
        s[i].name@ == e.name@,
    ensures
        spec_entries_map_of(s.update(i, e)) == spec_entries_map_of(s).insert(e.name@, e.data),
        unique_names(s.update(i, e)),
    decreases s.len(),
{
    let t = s.update(i, e);
    assert forall|a: int, b: int| 0 <= a < b < t.len() implies t[a].name@ != t[b].name@ by {
        assert(s[a].name@ != s[b].name@);
    }
    if i == s.len() - 1 {
        assert(t.drop_last() =~= s.drop_last());
        assert(spec_entries_map_of(t) == spec_entries_map_of(s.drop_last()).insert(
            e.name@,
            e.data,
        ));
        assert(spec_entries_map_of(s.drop_last()).insert(e.name@, e.data) =~= spec_entries_map_of(
            s.drop_last(),
        ).insert(s.last().name@, s.last().data).insert(e.name@, e.data));
    } else {
        assert(unique_names(s.drop_last())) by {
            assert(forall|a: int, b: int|
                0 <= a < b < s.drop_last().len() ==> s.drop_last()[a].name@
                    != s.drop_last()[b].name@);
        }
        assert(t.drop_last() =~= s.drop_last().update(i, e));
        lemma_entries_map_update(s.drop_last(), i, e);
        assert(t.last() == s.last());
        assert(s.last().name@ != e.name@) by {
            assert(s[i].name@ != s[s.len() - 1].name@);
        }
        assert(spec_entries_map_of(s.drop_last()).insert(e.name@, e.data).insert(
            s.last().name@,
            s.last().data,
        ) =~= spec_entries_map_of(s.drop_last()).insert(s.last().name@, s.last().data).insert(
            e.name@,
            e.data,
        ));
    }
}

/// Whether two byte slices hold the same bytes.
pub fn bytes_eq(a: &[u8], b: &[u8]) -> (r: bool)
    ensures
        r == (a@ == b@),
{
    if a.len() != b.len() {
        proof {
            assert(a@.len() != b@.len());
        }
        return false;
    }
    let mut i: usize = 0;
    while i < a.len()
        invariant
            i <= a.len(),
            a.len() == b.len(),
            forall|j: int| 0 <= j < i ==> a@[j] == b@[j],
        decreases a.len() - i,
    {
        if *vstd::slice::slice_index_get(a, i) != *vstd::slice::slice_index_get(b, i) {
            return false;
        }
        i = i + 1;
    }
    proof {
        assert(a@ =~= b@);
    }
    true
}

/// Whether a string slice and a string hold the same text.
pub fn str_eq_string(a: &str, b: &String) -> (r: bool)
    ensures
        r == (a@ == b@),
{
    let r = bytes_eq(a.as_bytes(), b.as_str().as_bytes());
    proof {
        vstd::utf8::encode_utf8_decode_utf8(a@);
        vstd::utf8::encode_utf8_decode_utf8(b@);
    }
    r
}

} // verus!

verus! {

// ---------------------------------------------------------------------------
// Parsing: spec-level description of a file's header table.
// ---------------------------------------------------------------------------

/// Byte position of entry header `id`.
pub open spec fn spec_header_pos(id: int) -> int {
    8 + 28 * id
}

/// The trimmed name bytes of entry header `id`.
pub open spec fn spec_name_bytes(data: Seq<u8>, id: int) -> Seq<u8> {
    crate::text::spec_trim_zeros(data.subrange(spec_header_pos(id), spec_header_pos(id) + 16))
}

/// The name of entry header `id`, as text.
pub open spec fn spec_name_chars(data: Seq<u8>, id: int) -> Seq<char> {
    vstd::utf8::decode_utf8(spec_name_bytes(data, id))
}

/// The type tag of entry header `id`.
pub open spec fn spec_header_typeid(data: Seq<u8>, id: int) -> u32 {
    spec_u32_at(data, spec_header_pos(id) + 16)
}

/// The element count of entry header `id`.
pub open spec fn spec_header_count(data: Seq<u8>, id: int) -> u32 {
    spec_u32_at(data, spec_header_pos(id) + 20)
}

/// The payload offset of entry header `id`.
pub open spec fn spec_header_offset(data: Seq<u8>, id: int) -> u32 {
    spec_u32_at(data, spec_header_pos(id) + 24)
}

/// Whether the buffer starts with the `"CNML"` magic tag.
pub open spec fn spec_magic_ok(data: Seq<u8>) -> bool {
    data.len() >= 4 && data[0] == 0x43 && data[1] == 0x4e && data[2] == 0x4d && data[3] == 0x4c
}

/// Whether entry header `id` is complete and sound: its 28 bytes are present,
/// its name is valid UTF-8, and a named entry carries a known type tag.
pub open spec fn spec_header_ok(data: Seq<u8>, id: int) -> bool {
    data.len() >= spec_header_pos(id) + 28 && vstd::utf8::valid_utf8(spec_name_bytes(data, id))
        && (spec_name_chars(data, id).len() > 0 ==> spec_header_typeid(data, id) <= 7)
}

/// Whether parsing the buffer succeeds: magic tag, version id 1, and all 128
/// entry headers sound.
pub open spec fn spec_parse_ok(data: Seq<u8>) -> bool {
    spec_magic_ok(data) && data.len() >= 8 && spec_u32_at(data, 4) == 1 && (forall|id: int|
        0 <= id < 128 ==> spec_header_ok(data, id))
}

/// Whether `e` is the payload that entry header `id` describes: `Null` for
/// null and dummy tags, otherwise the decoded element array.
pub open spec fn spec_entry_decoded(e: EntryData, data: Seq<u8>, id: int) -> bool {
    if spec_header_typeid(data, id) <= 1 {
        e == EntryData::Null
    } else {
        is_decoded_payload(
            &e,
            spec_header_typeid(data, id),
            spec_header_count(data, id) as nat,
            data,
            spec_header_offset(data, id) as int,
        )
    }
}

/// Whether header `id` is the last one carrying its name in the first `n`
/// headers (the decoder lets later entries of the same name win).
pub open spec fn spec_last_of_name(data: Seq<u8>, id: int, n: int) -> bool {
    forall|l: int| id < l < n ==> spec_name_chars(data, l) != spec_name_chars(data, id)
}

// ---------------------------------------------------------------------------
// The container itself.
// ---------------------------------------------------------------------------

/// An LParse container in memory: a version and a set of named entries.
#[derive(Debug)]
pub struct LParse {
    version: VersionSpecs,
    entries: Vec<Entry>,
}

/// Replaces the entry carrying `name`, or appends a new one.
fn vec_insert_entry(entries: &mut Vec<Entry>, name: String, data: EntryData)
    requires
        unique_names(old(entries)@),
    ensures
        unique_names(final(entries)@),
        spec_entries_map_of(final(entries)@) == spec_entries_map_of(old(entries)@).insert(
            name@,
            data,
        ),
{
    let n = entries.len();
    let mut i: usize = 0;
    while i < n
        invariant
            n == entries.len(),
            i <= n,
            unique_names(entries@),
            entries@ == old(entries)@,
            forall|j: int| 0 <= j < i ==> entries@[j].name@ != name@,
        decreases n - i,
    {
        if str_eq_string(name.as_str(), &entries[i].name) {
            let e = Entry { name, data };
            proof {
                lemma_entries_map_update(entries@, i as int, e);
            }
            entries[i] = e;
            return ;
        }
        i = i + 1;
    }
    let e = Entry { name, data };
    proof {
        lemma_entries_map_push(entries@, e);
    }
    entries.push(e);
}

impl LParse {
    #[verifier::type_invariant]
    spec fn inv(self) -> bool {
        self.version.wf() && unique_names(self.entries@)
    }

    /// The entries as a sequence, in insertion order.
    pub closed spec fn entries_seq(self) -> Seq<Entry> {
        self.entries@
    }

    /// The name-to-payload map this container holds.
    pub open spec fn entries_map(self) -> Map<Seq<char>, EntryData> {
        spec_entries_map_of(self.entries_seq())
    }

    /// The container's version id (always 1).
    pub closed spec fn spec_version_id(self) -> u32 {
        self.version.spec_version_id()
    }

    /// Creates an empty container of the given version; only version id 1
    /// is supported.
    pub fn new(version: u32) -> (r: Result<Self, Error>)
        ensures
            match r {
                Ok(lp) => version == 1 && lp.spec_version_id() == 1 && lp.entries_map()
                    == Map::<Seq<char>, EntryData>::empty(),
                Err(e) => version != 1 && e == Error::UnknownVersion(version),
            },
    {
        let v = VersionSpecs::from_version(version)?;
        Ok(LParse { version: v, entries: Vec::new() })
    }

    /// The version table of this container.
    pub fn get_version(&self) -> (r: &VersionSpecs)
        ensures
            r.wf(),
            r.spec_version_id() == self.spec_version_id(),
            self.spec_version_id() == 1,
    {
        proof {
            use_type_invariant(&*self);
        }
        &self.version
    }

    /// The entries in insertion order.
    pub fn entries(&self) -> (r: &Vec<Entry>)
        ensures
            r@ == self.entries_seq(),
    {
        &self.entries
    }

    /// Looks an entry up by name.
    pub fn try_get_entry(&self, name: &str) -> (r: Result<&EntryData, Error>)
        ensures
            match r {
                Ok(d) => self.entries_map().contains_key(name@) && *d == self.entries_map()[
                    name@
                ],
                Err(e) => !self.entries_map().contains_key(name@) && (e matches
                    Error::CannotFindEntry(s) && s@ == name@),
            },
    {
        proof {
            use_type_invariant(&*self);
            lemma_entries_map_of(self.entries@);
        }
        let n = self.entries.len();
        let mut i: usize = 0;
        while i < n
            invariant
                n == self.entries@.len(),
                i <= n,
                forall|j: int| 0 <= j < i ==> self.entries@[j].name@ != name@,
            decreases n - i,
        {
            if str_eq_string(name, &self.entries[i].name) {
                proof {
                    use_type_invariant(&*self);
                    lemma_entries_map_of(self.entries@);
                }
                return Ok(&self.entries[i].data);
            }
            i = i + 1;
        }
        Err(Error::CannotFindEntry(name.to_owned()))
    }

    /// Inserts an entry, replacing any entry of the same name.
    pub fn insert_entry(&mut self, name: String, data: EntryData)
        ensures
            final(self).entries_map() == old(self).entries_map().insert(name@, data),
            final(self).spec_version_id() == old(self).spec_version_id(),
    {
        proof {
            use_type_invariant(&*self);
        }
        let mut es: Vec<Entry> = Vec::new();
        core::mem::swap(&mut es, &mut self.entries);
        vec_insert_entry(&mut es, name, data);
        proof {
            assert(spec_entries_map_of(Seq::<Entry>::empty()) =~= Map::<
                Seq<char>,
                EntryData,
            >::empty());
        }
        self.entries = es;
    }

    /// Parses a container from bytes.
    ///
    /// Succeeds exactly when the buffer carries the magic tag, version id 1,
    /// and 128 sound entry headers; the result then holds, for each name, the
    /// payload of the last header carrying that name. Payload bytes past the
    /// end of the buffer read as zero.
    pub fn from_memory(data: &[u8]) -> (r: Result<Self, Error>)
        ensures
            r is Ok <==> spec_parse_ok(data@),
            !spec_magic_ok(data@) || data@.len() < 8 <==> r == Result::<
                LParse,
                Error,
            >::Err(Error::NotLParseFile),
            spec_magic_ok(data@) && data@.len() >= 8 && spec_u32_at(data@, 4) != 1 <==> r
                == Result::<LParse, Error>::Err(Error::UnknownVersion(spec_u32_at(data@, 4))),
            match r {
                Ok(lp) => {
                    &&& lp.spec_version_id() == 1
                    &&& forall|n: Seq<char>|
                        #[trigger] lp.entries_map().contains_key(n) <==> exists|id: int|
                            0 <= id < 128 && #[trigger] spec_name_chars(data@, id) == n
                                && n.len() > 0
                    &&& forall|id: int|
                        0 <= id < 128 && spec_name_chars(data@, id).len() > 0
                            && spec_last_of_name(data@, id, 128)
                            ==> #[trigger] spec_entry_decoded(
                            lp.entries_map()[spec_name_chars(data@, id)],
                            data@,
                            id,
                        )
                },
                Err(Error::NotLParseFile) => true,
                Err(Error::UnknownVersion(v)) => true,
                Err(Error::EntryCorrupted(_, id)) => {
                    &&& id < 128
                    &&& (data@.len() < spec_header_pos(id as int) + 28 || !vstd::utf8::valid_utf8(
                        spec_name_bytes(data@, id as int),
                    ))
                    &&& forall|j: int| 0 <= j < id ==> spec_header_ok(data@, j)
                },
                Err(Error::UnknownEntryType(_, id, t)) => {
                    &&& id < 128
                    &&& data@.len() >= spec_header_pos(id as int) + 28
                    &&& vstd::utf8::valid_utf8(spec_name_bytes(data@, id as int))
                    &&& spec_name_chars(data@, id as int).len() > 0
                    &&& t == spec_header_typeid(data@, id as int) && t > 7
                    &&& forall|j: int| 0 <= j < id ==> spec_header_ok(data@, j)
                },
                _ => false,
            },
    {
        if data.len() < 4 {
            return Err(Error::NotLParseFile);
        }
        let m0 = read_u8_at(data, 0);
        let m1 = read_u8_at(data, 1);
        let m2 = read_u8_at(data, 2);
        let m3 = read_u8_at(data, 3);
        if !(m0 == 0x43 && m1 == 0x4e && m2 == 0x4d && m3 == 0x4c) {
            return Err(Error::NotLParseFile);
        }
        if data.len() < 8 {
            return Err(Error::NotLParseFile);
        }
        let version_id = read_u32_at(data, 4);
        let version = match VersionSpecs::from_version(version_id) {
            Ok(v) => v,
            Err(e) => {
                return Err(e);
            },
        };
        let mut entries: Vec<Entry> = Vec::new();
        let mut id: usize = 0;
        while id < 128
            invariant
                id <= 128,
                data@.len() >= 8,
                spec_magic_ok(data@),
                spec_u32_at(data@, 4) == 1,
                unique_names(entries@),
                version.wf(),
                forall|j: int| 0 <= j < id ==> spec_header_ok(data@, j),
                forall|n: Seq<char>|
                    #[trigger] spec_entries_map_of(entries@).contains_key(n) <==> exists|j: int|
                        0 <= j < id && #[trigger] spec_name_chars(data@, j) == n && n.len() > 0,
                forall|j: int|
                    0 <= j < id && spec_name_chars(data@, j).len() > 0 && spec_last_of_name(
                        data@,
                        j,
                        id as int,
                    ) ==> #[trigger] spec_entry_decoded(
                        spec_entries_map_of(entries@)[spec_name_chars(data@, j)],
                        data@,
                        j,
                    ),
            decreases 128 - id,
        {
            let h = 8 + 28 * id;
            if data.len() < h + 16 {
                proof {
                    assert(!spec_header_ok(data@, id as int));
                }
                return Err(Error::EntryCorrupted("<entry name unreadable>".to_owned(), id));
            }
            let raw = vstd::slice::slice_to_vec(vstd::slice::slice_subrange(data, h, h + 16));
            proof {
                assert(raw@ == data@.subrange(h as int, h as int + 16));
            }
            let trimmed = crate::text::trim_zero_bytes(raw);
            let name = match crate::text::string_from_utf8(trimmed) {
                Some(s) => s,
                None => {
                    proof {
                        assert(!spec_header_ok(data@, id as int));
                    }
                    return Err(Error::EntryCorrupted("<entry name unreadable>".to_owned(), id));
                },
            };
            if data.len() < h + 28 {
                proof {
                    assert(!spec_header_ok(data@, id as int));
                }
                return Err(Error::EntryCorrupted(name, id));
            }
            let typeid = read_u32_at(data, h as u64 + 16);
            let count = read_u32_at(data, h as u64 + 20);
            let offset = read_u32_at(data, h as u64 + 24);
            let ghost name_view = name@;
            let ghost prev_map = spec_entries_map_of(entries@);
            let ghost mut gval = EntryData::Null;
            let empty_name = name.as_str().is_empty();
            proof {
                assert(name_view == spec_name_chars(data@, id as int));
            }
            if !empty_name {
                if typeid > 7 {
                    proof {
                        assert(!spec_header_ok(data@, id as int));
                    }
                    return Err(Error::UnknownEntryType(name, id, typeid));
                }
                let val = if typeid <= 1 {
                    EntryData::Null
                } else {
                    EntryData::decode_payload(typeid, count as usize, data, offset)
                };
                proof {
                    gval = val;
                    assert(spec_entry_decoded(val, data@, id as int));
                }
                vec_insert_entry(&mut entries, name, val);
            }
            proof {
                assert(spec_header_ok(data@, id as int));
                let cur = spec_entries_map_of(entries@);
                let d = data@;
                let w = id as int;
                if empty_name {
                    assert forall|n: Seq<char>| #[trigger] cur.contains_key(n) implies exists|j: int|
                        0 <= j < w + 1 && #[trigger] spec_name_chars(d, j) == n && n.len() > 0 by {
                        let j = choose|j: int|
                            0 <= j < w && #[trigger] spec_name_chars(d, j) == n && n.len() > 0;
                        assert(0 <= j < w + 1 && spec_name_chars(d, j) == n && n.len() > 0);
                    }
                    assert forall|n: Seq<char>|
                        (exists|j: int| 0 <= j < w + 1 && #[trigger] spec_name_chars(d, j) == n
                            && n.len() > 0) implies cur.contains_key(n) by {
                        let j = choose|j: int|
                            0 <= j < w + 1 && #[trigger] spec_name_chars(d, j) == n && n.len() > 0;
                        assert(j != w);
                        assert(exists|j: int|
                            0 <= j < w && #[trigger] spec_name_chars(d, j) == n && n.len() > 0);
                    }
                    assert forall|j: int|
                        0 <= j < w + 1 && spec_name_chars(d, j).len() > 0 && spec_last_of_name(
                            d,
                            j,
                            w + 1,
                        ) implies #[trigger] spec_entry_decoded(
                        cur[spec_name_chars(d, j)],
                        d,
                        j,
                    ) by {
                        assert(j != w);
                        assert(spec_last_of_name(d, j, w));
                    }
                } else {
                    assert(cur == prev_map.insert(name_view, gval));
                    assert forall|n: Seq<char>| #[trigger] cur.contains_key(n) implies exists|j: int|
                        0 <= j < w + 1 && #[trigger] spec_name_chars(d, j) == n && n.len() > 0 by {
                        if n == name_view {
                            assert(0 <= w < w + 1 && spec_name_chars(d, w) == n && n.len() > 0);
                        } else {
                            assert(prev_map.contains_key(n));
                            let j = choose|j: int|
                                0 <= j < w && #[trigger] spec_name_chars(d, j) == n && n.len()
                                    > 0;
                            assert(0 <= j < w + 1 && spec_name_chars(d, j) == n && n.len() > 0);
                        }
                    }
                    assert forall|n: Seq<char>|
                        (exists|j: int| 0 <= j < w + 1 && #[trigger] spec_name_chars(d, j) == n
                            && n.len() > 0) implies cur.contains_key(n) by {
                        let j = choose|j: int|
                            0 <= j < w + 1 && #[trigger] spec_name_chars(d, j) == n && n.len()
                                > 0;
                        if j == w {
                            assert(cur.contains_key(name_view));
                        } else {
                            assert(exists|j: int|
                                0 <= j < w && #[trigger] spec_name_chars(d, j) == n && n.len()
                                    > 0);
                        }
                    }
                    assert forall|j: int|
                        0 <= j < w + 1 && spec_name_chars(d, j).len() > 0 && spec_last_of_name(
                            d,
                            j,
                            w + 1,
                        ) implies #[trigger] spec_entry_decoded(
                        cur[spec_name_chars(d, j)],
                        d,
                        j,
                    ) by {
                        if j == w {
                            assert(cur[name_view] == gval);
                        } else {
                            assert(spec_name_chars(d, w) != spec_name_chars(d, j));
                            assert(cur[spec_name_chars(d, j)] == prev_map[spec_name_chars(d, j)]);
                            assert(spec_last_of_name(d, j, w));
                        }
                    }
                }
            }
            id = id + 1;
        }
        Ok(LParse { version, entries })
    }
}

} // verus!

verus! {

// ---------------------------------------------------------------------------
// Saving: spec-level description of the bytes a container writes.
// ---------------------------------------------------------------------------

/// `n` zero bytes.
pub open spec fn spec_zeros(n: int) -> Seq<u8> {
    Seq::new(n as nat, |i: int| 0u8)
}

/// A name field: the name's UTF-8 bytes, zero-padded or truncated to 16.
pub open spec fn spec_name16(name: Seq<char>) -> Seq<u8> {
    (vstd::utf8::encode_utf8(name) + spec_zeros(16)).take(16)
}

/// The header an entry writes, given its payload offset.
pub open spec fn spec_entry_header(e: Entry, off: u32) -> Seq<u8> {
    spec_name16(e.name@) + spec_u32_le(spec_typeid(&e.data)) + spec_u32_le(
        spec_entry_len(&e.data) as u32,
    ) + spec_u32_le(off)
}

/// A null header: 16 zero name bytes, tag 0, count 0, and the offset the
/// writer had reached.
pub open spec fn spec_null_header(off: u32) -> Seq<u8> {
    spec_zeros(16) + spec_u32_le(0) + spec_u32_le(0) + spec_u32_le(off)
}

/// The summed payload sizes of the first `n` entries.
pub open spec fn spec_sizes_take(s: Seq<Entry>, n: int) -> int
    decreases n,
{
    if n <= 0 {
        0
    } else {
        spec_sizes_take(s, n - 1) + spec_data_size(&s[n - 1].data)
    }
}

/// The concatenated headers of the first `n` entries; payloads start at
/// offset 3592, directly after the header table.
pub open spec fn spec_headers_take(s: Seq<Entry>, n: int) -> Seq<u8>
    decreases n,
{
    if n <= 0 {
        Seq::empty()
    } else {
        spec_headers_take(s, n - 1) + spec_entry_header(
            s[n - 1],
            (3592 + spec_sizes_take(s, n - 1)) as u32,
        )
    }
}

/// `n` copies of the null header.
pub open spec fn spec_null_headers(off: u32, n: int) -> Seq<u8>
    decreases n,
{
    if n <= 0 {
        Seq::empty()
    } else {
        spec_null_headers(off, n - 1) + spec_null_header(off)
    }
}

/// The concatenated payloads of the first `n` entries.
pub open spec fn spec_payloads_take(s: Seq<Entry>, n: int) -> Seq<u8>
    decreases n,
{
    if n <= 0 {
        Seq::empty()
    } else {
        spec_payloads_take(s, n - 1) + spec_payload(&s[n - 1].data)
    }
}

/// Whether saving succeeds: at most 128 entries, every element count fits a
/// `u32`, and the payload region ends within `u32` range.
pub open spec fn spec_save_ok(s: Seq<Entry>) -> bool {
    s.len() <= 128 && (forall|i: int|
        0 <= i < s.len() ==> spec_entry_len(&s[i].data) <= u32::MAX) && 3592 + spec_sizes_take(
        s,
        s.len() as int,
    ) <= u32::MAX
}

/// The bytes a container of entries `s` saves: magic tag, version id 1, the
/// entries' headers, null headers up to 128 slots, then the packed payloads.
pub open spec fn spec_save_bytes(s: Seq<Entry>) -> Seq<u8> {
    seq![0x43u8, 0x4eu8, 0x4du8, 0x4cu8] + spec_u32_le(1) + spec_headers_take(s, s.len() as int)
        + spec_null_headers(
        (3592 + spec_sizes_take(s, s.len() as int)) as u32,
        128 - s.len(),
    ) + spec_payloads_take(s, s.len() as int)
}

/// Prefix sums of payload sizes grow with the prefix.
proof fn lemma_sizes_take_mono(s: Seq<Entry>, i: int, j: int)
    requires
        i <= j,
    ensures
        spec_sizes_take(s, i) <= spec_sizes_take(s, j),
        0 <= spec_sizes_take(s, j) || j < 0,
    decreases j,
{
    if j > 0 && i < j {
        lemma_sizes_take_mono(s, i, j - 1);
    }
    if j > 0 && i == j {
        lemma_sizes_take_mono(s, i - 1, j - 1);
    }
}

/// Writes a 16-byte name field: the name's bytes, zero-padded or truncated.
fn write_name16(out: &mut Vec<u8>, name: &String)
    ensures
        final(out)@ == old(out)@ + spec_name16(name@),
{
    let bytes = crate::text::string_to_bytes(name.as_str());
    let m = if bytes.len() < 16 {
        bytes.len()
    } else {
        16
    };
    let mut i: usize = 0;
    while i < m
        invariant
            i <= m,
            m <= bytes.len(),
            out@ == old(out)@ + bytes@.take(i as int),
        decreases m - i,
    {
        out.push(bytes[i]);
        proof {
            assert(out@ =~= old(out)@ + bytes@.take(i + 1));
        }
        i = i + 1;
    }
    while i < 16
        invariant
            m <= i <= 16,
            m <= bytes.len(),
            out@ == old(out)@ + bytes@.take(m as int) + spec_zeros(i - m),
        decreases 16 - i,
    {
        out.push(0);
        proof {
            assert(out@ =~= old(out)@ + bytes@.take(m as int) + spec_zeros(i + 1 - m));
        }
        i = i + 1;
    }
    proof {
        assert(bytes@.take(m as int) + spec_zeros(16 - m) =~= spec_name16(name@));
        assert(out@ =~= old(out)@ + spec_name16(name@));
    }
}

impl LParse {
    /// Serializes the container.
    ///
    /// Fails with `EntryOverflow` when it holds more than 128 entries, and
    /// with `Corrupted` when an element count or the total payload size would
    /// not fit the format's 32-bit fields; otherwise the bytes are exactly
    /// the file layout of the entries in insertion order.
    pub fn save_to_bytes(&self) -> (r: Result<Vec<u8>, Error>)
        ensures
            r is Ok <==> spec_save_ok(self.entries_seq()),
            match r {
                Ok(out) => out@ == spec_save_bytes(self.entries_seq()),
                Err(Error::EntryOverflow(v, cap, cnt)) => v == 1 && cap == 128 && cnt
                    == self.entries_seq().len() && cnt > 128,
                Err(Error::Corrupted(_)) => self.entries_seq().len() <= 128 && !spec_save_ok(
                    self.entries_seq(),
                ),
                _ => false,
            },
    {
        proof {
            use_type_invariant(&*self);
        }
        let ghost s = self.entries@;
        let n = self.entries.len();
        if n > 128 {
            return Err(Error::EntryOverflow(self.version.get_version_id(), 128, n));
        }
        // First pass: validate element counts and sum the payload sizes.
        let mut total: u64 = 0;
        let mut i: usize = 0;
        while i < n
            invariant
                i <= n,
                n == s.len(),
                n <= 128,
                s == self.entries@,
                forall|j: int| 0 <= j < i ==> spec_entry_len(&s[j].data) <= u32::MAX,
                total == spec_sizes_take(s, i as int),
                total <= 0x10_0000_0000u64 * (i as u64),
            decreases n - i,
        {
            let len = self.entries[i].data.get_entry_len();
            if len as u64 > 0xffff_ffffu64 {
                proof {
                    assert(!spec_save_ok(s));
                }
                return Err(Error::Corrupted("an entry is too long to save".to_owned()));
            }
            proof {
                assert(spec_data_size(&s[i as int].data) <= 0x10_0000_0000u64) by {
                    assert(spec_entry_len(&s[i as int].data) * spec_elem_size(
                        spec_typeid(&s[i as int].data),
                    ) <= 0xffff_ffff * 16) by (nonlinear_arith)
                        requires
                            spec_entry_len(&s[i as int].data) <= 0xffff_ffff,
                            spec_elem_size(spec_typeid(&s[i as int].data)) <= 16,
                    ;
                }
            }
            let sz = self.entries[i].data.get_saved_data_size();
            total = total + sz;
            i = i + 1;
        }
        if total > 0xffff_ffffu64 - 3592 {
            proof {
                assert(!spec_save_ok(s));
            }
            return Err(Error::Corrupted("the entry payloads are too large to save".to_owned()));
        }
        // Second pass: emit the header region, then the payload region.
        let mut out: Vec<u8> = Vec::new();
        out.push(0x43);
        out.push(0x4e);
        out.push(0x4d);
        out.push(0x4c);
        push_u32_le(&mut out, self.version.get_version_id());
        let ghost base = out@;
        proof {
            assert(base =~= seq![0x43u8, 0x4eu8, 0x4du8, 0x4cu8] + spec_u32_le(1));
        }
        let mut off: u64 = 3592;
        i = 0;
        while i < n
            invariant
                i <= n,
                n == s.len(),
                n <= 128,
                s == self.entries@,
                forall|j: int| 0 <= j < n ==> spec_entry_len(&s[j].data) <= u32::MAX,
                total == spec_sizes_take(s, n as int),
                total <= 0xffff_ffffu64 - 3592,
                off == 3592 + spec_sizes_take(s, i as int),
                out@ == base + spec_headers_take(s, i as int),
            decreases n - i,
        {
            proof {
                lemma_sizes_take_mono(s, i as int, n as int);
                lemma_sizes_take_mono(s, 0, i as int);
                lemma_sizes_take_mono(s, i as int, i as int + 1);
                lemma_sizes_take_mono(s, i as int + 1, n as int);
            }
            let ghost out0 = out@;
            write_name16(&mut out, &self.entries[i].name);
            push_u32_le(&mut out, self.entries[i].data.get_typeid());
            push_u32_le(&mut out, self.entries[i].data.get_entry_len() as u32);
            push_u32_le(&mut out, off as u32);
            let sz = self.entries[i].data.get_saved_data_size();
            proof {
                assert(out@ =~= out0 + spec_entry_header(
                    s[i as int],
                    (3592 + spec_sizes_take(s, i as int)) as u32,
                ));
                assert(out@ =~= base + spec_headers_take(s, i as int + 1));
            }
            off = off + sz;
            i = i + 1;
        }
        let ghost headers = spec_headers_take(s, n as int);
        let ghost end_off = (3592 + spec_sizes_take(s, n as int)) as u32;
        let mut k: usize = n;
        while k < 128
            invariant
                n <= k <= 128,
                n == s.len(),
                n <= 128,
                s == self.entries@,
                off == 3592 + spec_sizes_take(s, n as int),
                total == spec_sizes_take(s, n as int),
                total <= 0xffff_ffffu64 - 3592,
                out@ == base + headers + spec_null_headers(end_off, k - n),
                headers == spec_headers_take(s, n as int),
                end_off == (3592 + spec_sizes_take(s, n as int)) as u32,
            decreases 128 - k,
        {
            let ghost out0 = out@;
            let mut z: usize = 0;
            while z < 16
                invariant
                    z <= 16,
                    out@ == out0 + spec_zeros(z as int),
                decreases 16 - z,
            {
                out.push(0);
                proof {
                    assert(out@ =~= out0 + spec_zeros(z + 1));
                }
                z = z + 1;
            }
            push_u32_le(&mut out, 0);
            push_u32_le(&mut out, 0);
            push_u32_le(&mut out, off as u32);
            proof {
                assert(out@ =~= out0 + spec_null_header(end_off));
                assert(out@ =~= base + headers + spec_null_headers(end_off, k - n + 1));
            }
            k = k + 1;
        }
        let ghost header_region = out@;
        i = 0;
        while i < n
            invariant
                i <= n,
                n == s.len(),
                s == self.entries@,
                out@ == header_region + spec_payloads_take(s, i as int),
                header_region == base + headers + spec_null_headers(end_off, 128 - n),
            decreases n - i,
        {
            let ghost out0 = out@;
            self.entries[i].data.save(&mut out);
            proof {
                assert(out@ =~= header_region + spec_payloads_take(s, i as int + 1));
            }
            i = i + 1;
        }
        proof {
            assert(out@ =~= spec_save_bytes(s));
        }
        Ok(out)
    }
}

} // verus!

verus! {

// ---------------------------------------------------------------------------
// Round trip of entry payloads.
// ---------------------------------------------------------------------------

/// Whether two entry payloads hold the same data: the same type tag and
/// equal element sequences.
pub open spec fn entry_data_equal(a: &EntryData, b: &EntryData) -> bool {
    match (a, b) {
        (EntryData::Null, EntryData::Null) => true,
        (EntryData::Dummy, EntryData::Dummy) => true,
        (EntryData::I32(x), EntryData::I32(y)) => x@ == y@,
        (EntryData::U32(x), EntryData::U32(y)) => x@ == y@,
        (EntryData::U8(x), EntryData::U8(y)) => x@ == y@,
        (EntryData::U16(x), EntryData::U16(y)) => x@ == y@,
        (EntryData::F32(x), EntryData::F32(y)) => x@ == y@,
        (EntryData::Rect(x), EntryData::Rect(y)) => x@ == y@,
        _ => false,
    }
}

/// The byte chunk of every element has the element size of the entry's tag.
proof fn lemma_elem_bytes_len(e: &EntryData, i: int)
    ensures
        spec_elem_bytes(e, i).len() == spec_elem_size(spec_typeid(e)),
{
}

/// The first `n` element chunks concatenate to `n * size` bytes, and byte
/// `i * size + t` lies in chunk `i`.
proof fn lemma_payload_take_index(e: &EntryData, n: int)
    requires
        0 <= n,
    ensures
        spec_payload_take(e, n).len() == n * spec_elem_size(spec_typeid(e)),
        forall|i: int, t: int|
            0 <= i < n && 0 <= t < spec_elem_size(spec_typeid(e)) ==> #[trigger] spec_payload_take(
                e,
                n,
            )[i * spec_elem_size(spec_typeid(e)) + t] == spec_elem_bytes(e, i)[t],
    decreases n,
{
    let sz = spec_elem_size(spec_typeid(e));
    if n > 0 {
        lemma_payload_take_index(e, n - 1);
        lemma_elem_bytes_len(e, n - 1);
        assert forall|i: int, t: int| 0 <= i < n && 0 <= t < sz implies #[trigger]
            spec_payload_take(e, n)[i * sz + t] == spec_elem_bytes(e, i)[t] by {
            assert((n - 1) * sz == n * sz - sz) by (nonlinear_arith);
            if i < n - 1 {
                assert(i * sz + t < (n - 1) * sz) by (nonlinear_arith)
                    requires
                        0 <= i < n - 1 && 0 <= t < sz,
                ;
                assert(spec_payload_take(e, n)[i * sz + t] == spec_payload_take(e, n - 1)[i * sz
                    + t]);
            } else {
                assert(i * sz == (n - 1) * sz);
                assert(spec_payload_take(e, n)[i * sz + t] == spec_elem_bytes(e, n - 1)[t]);
            }
        }
    }
}

/// For every supported entry type tag, decoding an entry's saved payload
/// yields the entry's data back: the container codec round-trips entry
/// payloads exactly.
pub proof fn lemma_entry_payload_round_trip(e: &EntryData, r: &EntryData)
    requires
        spec_typeid(e) >= 2,
        is_decoded_payload(r, spec_typeid(e), spec_entry_len(e), spec_payload(e), 0),
    ensures
        entry_data_equal(r, e),
{
    let sz = spec_elem_size(spec_typeid(e));
    let len = spec_entry_len(e) as int;
    let p = spec_payload(e);
    lemma_payload_take_index(e, len);
    match e {
        EntryData::Null => {},
        EntryData::Dummy => {},
        EntryData::I32(v) => {
            let rv = r->I32_0;
            assert forall|i: int| 0 <= i < len implies rv@[i] == v@[i] by {
                assert(0 <= 4 * i && 4 * i + 4 <= 4 * len) by (nonlinear_arith)
                    requires
                        0 <= i < len,
                ;
                assert(p[i * sz + 0] == spec_elem_bytes(e, i)[0]);
                assert(p[i * sz + 1] == spec_elem_bytes(e, i)[1]);
                assert(p[i * sz + 2] == spec_elem_bytes(e, i)[2]);
                assert(p[i * sz + 3] == spec_elem_bytes(e, i)[3]);
                lemma_le32_round_trip(v@[i] as u32);
                let a = v@[i];
                assert(((a as u32) as i32) == a) by (bit_vector);
            }
            assert(rv@ =~= v@);
        },
        EntryData::U32(v) => {
            let rv = r->U32_0;
            assert forall|i: int| 0 <= i < len implies rv@[i] == v@[i] by {
                assert(0 <= 4 * i && 4 * i + 4 <= 4 * len) by (nonlinear_arith)
                    requires
                        0 <= i < len,
                ;
                assert(p[i * sz + 0] == spec_elem_bytes(e, i)[0]);
                assert(p[i * sz + 1] == spec_elem_bytes(e, i)[1]);
                assert(p[i * sz + 2] == spec_elem_bytes(e, i)[2]);
                assert(p[i * sz + 3] == spec_elem_bytes(e, i)[3]);
                lemma_le32_round_trip(v@[i]);
            }
            assert(rv@ =~= v@);
        },
        EntryData::U8(v) => {
            let rv = r->U8_0;
            assert forall|i: int| 0 <= i < len implies rv@[i] == v@[i] by {
                assert(p[i * sz + 0] == spec_elem_bytes(e, i)[0]);
            }
            assert(rv@ =~= v@);
        },
        EntryData::U16(v) => {
            let rv = r->U16_0;
            assert forall|i: int| 0 <= i < len implies rv@[i] == v@[i] by {
                assert(0 <= 2 * i && 2 * i + 2 <= 2 * len) by (nonlinear_arith)
                    requires
                        0 <= i < len,
                ;
                assert(p[i * sz + 0] == spec_elem_bytes(e, i)[0]);
                assert(p[i * sz + 1] == spec_elem_bytes(e, i)[1]);
                lemma_le16_round_trip(v@[i]);
            }
            assert(rv@ =~= v@);
        },
        EntryData::F32(v) => {
            let rv = r->F32_0;
            assert forall|i: int| 0 <= i < len implies rv@[i] == v@[i] by {
                assert(0 <= 4 * i && 4 * i + 4 <= 4 * len) by (nonlinear_arith)
                    requires
                        0 <= i < len,
                ;
                assert(p[i * sz + 0] == spec_elem_bytes(e, i)[0]);
                assert(p[i * sz + 1] == spec_elem_bytes(e, i)[1]);
                assert(p[i * sz + 2] == spec_elem_bytes(e, i)[2]);
                assert(p[i * sz + 3] == spec_elem_bytes(e, i)[3]);
                lemma_le32_round_trip(v@[i]);
            }
            assert(rv@ =~= v@);
        },
        EntryData::Rect(v) => {
            let rv = r->Rect_0;
            assert forall|i: int| 0 <= i < len implies rv@[i] == v@[i] by {
                assert(0 <= 16 * i && 16 * i + 16 <= 16 * len) by (nonlinear_arith)
                    requires
                        0 <= i < len,
                ;
                assert forall|t: int| 0 <= t < 16 implies p[i * sz + t]
                    == spec_elem_bytes(e, i)[t] by {}
                let a = v@[i].x;
                let b = v@[i].y;
                let c = v@[i].w;
                let d = v@[i].h;
                lemma_le32_round_trip(a as u32);
                lemma_le32_round_trip(b as u32);
                lemma_le32_round_trip(c as u32);
                lemma_le32_round_trip(d as u32);
                let ebi = spec_elem_bytes(e, i);
                let ua = spec_u32_le(a as u32);
                let ub = spec_u32_le(b as u32);
                let uc = spec_u32_le(c as u32);
                let ud = spec_u32_le(d as u32);
                assert(ebi[0] == ua[0] && ebi[1] == ua[1] && ebi[2] == ua[2] && ebi[3] == ua[3]);
                assert(ebi[4] == ub[0] && ebi[5] == ub[1] && ebi[6] == ub[2] && ebi[7] == ub[3]);
                assert(ebi[8] == uc[0] && ebi[9] == uc[1] && ebi[10] == uc[2] && ebi[11]
                    == uc[3]);
                assert(ebi[12] == ud[0] && ebi[13] == ud[1] && ebi[14] == ud[2] && ebi[15]
                    == ud[3]);
                assert(p[i * sz + 0] == ebi[0] && p[i * sz + 1] == ebi[1] && p[i * sz + 2]
                    == ebi[2] && p[i * sz + 3] == ebi[3]);
                assert(p[i * sz + 4] == ebi[4] && p[i * sz + 5] == ebi[5] && p[i * sz + 6]
                    == ebi[6] && p[i * sz + 7] == ebi[7]);
                assert(p[i * sz + 8] == ebi[8] && p[i * sz + 9] == ebi[9] && p[i * sz + 10]
                    == ebi[10] && p[i * sz + 11] == ebi[11]);
                assert(p[i * sz + 12] == ebi[12] && p[i * sz + 13] == ebi[13] && p[i * sz + 14]
                    == ebi[14] && p[i * sz + 15] == ebi[15]);
                assert(spec_u32_at(p, 16 * i + 0) == spec_le32(ebi[0], ebi[1], ebi[2], ebi[3]));
                assert(spec_u32_at(p, 16 * i + 4) == spec_le32(ebi[4], ebi[5], ebi[6], ebi[7]));
                assert(spec_u32_at(p, 16 * i + 8) == spec_le32(ebi[8], ebi[9], ebi[10], ebi[11]));
                assert(spec_u32_at(p, 16 * i + 12) == spec_le32(
                    ebi[12],
                    ebi[13],
                    ebi[14],
                    ebi[15],
                ));
                assert(((a as u32) as i32) == a) by (bit_vector);
                assert(((b as u32) as i32) == b) by (bit_vector);
                assert(((c as u32) as i32) == c) by (bit_vector);
                assert(((d as u32) as i32) == d) by (bit_vector);
                assert(rv@[i] == spec_rect_at(p, 16 * i));
            }
            assert(rv@ =~= v@);
        },
    }
}

} // verus!

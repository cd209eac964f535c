//! The quote index: a fixed header followed by a table of byte offsets into
//! the companion text file, every integer big-endian.
//!
//! | at | size | field |
//! |---|---|---|
//! | 0 | 4 | version |
//! | 4 | 4 | number of strings |
//! | 8 | 4 | longest length |
//! | 12 | 4 | shortest length |
//! | 16 | 4 | flags |
//! | 20 | 1 | delimiter |
//! | 21 | 3 | padding |
//! | 24 | 4 each | offsets |

use crate::endian::{be_bytes, be_u32, lemma_be_round_trip, read_be_u32};
use vstd::prelude::*;
use vstd::slice::slice_subrange;

verus! {

/// Length of the fixed part of the header, up to and including the delimiter.
pub const HEADER_PREFIX_LEN: usize = 21;

/// Where the offset table starts: after the fixed part and three bytes of padding.
pub const OFFSET_TABLE_START: usize = 24;

/// A parsed quote index.
///
/// `version`, `longest_length` and `shortest_length` are carried as read and
/// not interpreted.
#[derive(Debug, Clone, PartialEq, Eq)]
pub struct StrfileHeader {
    pub version: u32,
    pub number_of_strings: u32,
    pub longest_length: u32,
    pub shortest_length: u32,
    pub flags: u32,
    pub delim: u8,
    pub offsets: Vec<u32>,
}

/// The mathematical content of a `StrfileHeader`.
pub struct HeaderView {
    pub version: u32,
    pub number_of_strings: u32,
    pub longest_length: u32,
    pub shortest_length: u32,
    pub flags: u32,
    pub delim: u8,
    pub offsets: Seq<u32>,
}

/// The bits of the `flags` field that have a meaning.
#[derive(Debug, Clone, Copy, PartialEq, Eq, Structural)]
pub enum Flags {
    Random,
    Ordered,
    Rotated,
    HasComments,
}

/// Why a byte sequence is not a quote index.
#[derive(Debug, Clone, Copy, PartialEq, Eq, Structural)]
pub enum FormatError {
    /// Fewer bytes than the fixed part of the header.
    TruncatedHeader,
    /// The bytes end before the last entry of the offset table.
    TruncatedOffsets,
}

impl View for StrfileHeader {
    type V = HeaderView;

    open spec fn view(&self) -> HeaderView {
        HeaderView {
            version: self.version,
            number_of_strings: self.number_of_strings,
            longest_length: self.longest_length,
            shortest_length: self.shortest_length,
            flags: self.flags,
            delim: self.delim,
            offsets: self.offsets@,
        }
    }
}

impl HeaderView {
    /// The table holds one offset for each string that the header counts.
    pub open spec fn well_formed(self) -> bool {
        self.offsets.len() == self.number_of_strings
    }
}

impl Flags {
    /// The single bit that stands for this flag.
    pub open spec fn mask(self) -> u32 {
        match self {
            Flags::Random => 0x1,
            Flags::Ordered => 0x2,
            Flags::Rotated => 0x4,
            Flags::HasComments => 0x8,
        }
    }

    /// The single bit that stands for this flag.
    pub fn bits(self) -> (m: u32)
        ensures
            m == self.mask(),
    {
        match self {
            Flags::Random => 0x1,
            Flags::Ordered => 0x2,
            Flags::Rotated => 0x4,
            Flags::HasComments => 0x8,
        }
    }
}

/// Whether `flag` is present in the bit mask `flags`.
pub open spec fn flag_set(flags: u32, flag: Flags) -> bool {
    flags & flag.mask() != 0
}

/// The big-endian integer held in the four bytes of `bytes` from `at` on.
pub open spec fn field_at(bytes: Seq<u8>, at: int) -> u32
    recommends
        0 <= at,
        at + 4 <= bytes.len(),
{
    be_u32(bytes.subrange(at, at + 4))
}

/// The number of bytes that an index of `count` strings needs: the fixed part
/// alone where the table is empty, else everything up to the end of the table.
pub open spec fn index_len(count: u32) -> int {
    if count == 0 {
        HEADER_PREFIX_LEN as int
    } else {
        OFFSET_TABLE_START + 4 * count
    }
}

/// What `bytes` mean as a quote index.
pub open spec fn decode_header(bytes: Seq<u8>) -> Result<HeaderView, FormatError> {
    if bytes.len() < HEADER_PREFIX_LEN {
        Err(FormatError::TruncatedHeader)
    } else if bytes.len() < index_len(field_at(bytes, 4)) {
        Err(FormatError::TruncatedOffsets)
    } else {
        Ok(
            HeaderView {
                version: field_at(bytes, 0),
                number_of_strings: field_at(bytes, 4),
                longest_length: field_at(bytes, 8),
                shortest_length: field_at(bytes, 12),
                flags: field_at(bytes, 16),
                delim: bytes[20],
                offsets: Seq::new(
                    field_at(bytes, 4) as nat,
                    |i: int| field_at(bytes, OFFSET_TABLE_START + 4 * i),
                ),
            },
        )
    }
}

/// The index bytes that hold `h`, with zeroes as padding.
pub open spec fn encode_header(h: HeaderView) -> Seq<u8> {
    be_bytes(h.version) + be_bytes(h.number_of_strings) + be_bytes(h.longest_length) + be_bytes(
        h.shortest_length,
    ) + be_bytes(h.flags) + seq![h.delim, 0u8, 0u8, 0u8] + Seq::new(
        4 * h.offsets.len(),
        |k: int| be_bytes(h.offsets[k / 4])[k % 4],
    )
}

/// A parse result with the header replaced by its content.
pub open spec fn parsed_view(r: Result<StrfileHeader, FormatError>) -> Result<
    HeaderView,
    FormatError,
> {
    match r {
        Ok(h) => Ok(h@),
        Err(e) => Err(e),
    }
}

fn read_field(data: &[u8], at: usize) -> (v: u32)
    requires
        at + 4 <= data.len(),
    ensures
        v == field_at(data@, at as int),
{
    read_be_u32(slice_subrange(data, at, at + 4))
}

impl StrfileHeader {
    /// The table holds one offset for each string that the header counts.
    pub open spec fn well_formed(&self) -> bool {
        self@.well_formed()
    }

    /// Whether the bit of `mask` is present in `flags`, whatever other bits are.
    pub fn flag_is_set(&self, mask: Flags) -> (set: bool)
        ensures
            set == flag_set(self.flags, mask),
    {
        self.flags & mask.bits() != 0
    }

    /// Whether the strings were shuffled when the index was built.
    pub fn is_random(&self) -> (set: bool)
        ensures
            set == flag_set(self.flags, Flags::Random),
    {
        self.flag_is_set(Flags::Random)
    }

    /// Whether the quotes are stored under the 13-place letter rotation.
    pub fn is_rotated(&self) -> (set: bool)
        ensures
            set == flag_set(self.flags, Flags::Rotated),
    {
        self.flag_is_set(Flags::Rotated)
    }

    /// Whether the strings were sorted when the index was built.
    pub fn is_ordered(&self) -> (set: bool)
        ensures
            set == flag_set(self.flags, Flags::Ordered),
    {
        self.flag_is_set(Flags::Ordered)
    }

    /// Whether the text file carries comments.
    pub fn has_comments(&self) -> (set: bool)
        ensures
            set == flag_set(self.flags, Flags::HasComments),
    {
        self.flag_is_set(Flags::HasComments)
    }

    /// Parses the contents of an index file.
    ///
    /// Fails where `data` is shorter than the fixed part of the header, or
    /// ends before the last of the offsets that the header counts. Nothing
    /// else is checked: flags and offsets are taken as they are. The padding
    /// may be missing where the table is empty.
    pub fn new(data: &[u8]) -> (r: Result<StrfileHeader, FormatError>)
        ensures
            parsed_view(r) == decode_header(data@),
            r matches Ok(h) ==> h.well_formed(),
    {
        if data.len() < HEADER_PREFIX_LEN {
            return Err(FormatError::TruncatedHeader);
        }
        let version: u32 = read_field(data, 0);
        let number_of_strings: u32 = read_field(data, 4);
        let longest_length: u32 = read_field(data, 8);
        let shortest_length: u32 = read_field(data, 12);
        let flags: u32 = read_field(data, 16);
        let delim: u8 = data[20];
        let table_end: u64 = OFFSET_TABLE_START as u64 + 4 * (number_of_strings as u64);
        if number_of_strings > 0 && (data.len() as u64) < table_end {
            return Err(FormatError::TruncatedOffsets);
        }
        let count: usize = number_of_strings as usize;
        let mut offsets: Vec<u32> = Vec::new();
        let mut i: usize = 0;
        while i < count
            invariant
                i <= count,
                count == number_of_strings,
                count > 0 ==> OFFSET_TABLE_START + 4 * count <= data.len(),
                offsets@.len() == i,
                forall|j: int|
                    0 <= j < i ==> offsets@[j] == field_at(data@, OFFSET_TABLE_START + 4 * j),
            decreases count - i,
        {
            let offset: u32 = read_field(data, OFFSET_TABLE_START + 4 * i);
            offsets.push(offset);
            i += 1;
        }
        let header = StrfileHeader {
            version,
            number_of_strings,
            longest_length,
            shortest_length,
            flags,
            delim,
            offsets,
        };
        assert(header@.offsets =~= decode_header(data@)->Ok_0.offsets);
        Ok(header)
    }
}

/// A flag set alone in a mask is reported as set, and no other flag is.
pub proof fn lemma_single_flag(f: Flags, g: Flags)
    ensures
        flag_set(f.mask(), g) <==> f == g,
{
    assert(1u32 & 1u32 != 0 && 2u32 & 2u32 != 0 && 4u32 & 4u32 != 0 && 8u32 & 8u32 != 0)
        by (bit_vector);
    assert(1u32 & 2u32 == 0 && 1u32 & 4u32 == 0 && 1u32 & 8u32 == 0 && 2u32 & 4u32 == 0 && 2u32
        & 8u32 == 0 && 4u32 & 8u32 == 0) by (bit_vector);
    assert(2u32 & 1u32 == 0 && 4u32 & 1u32 == 0 && 8u32 & 1u32 == 0 && 4u32 & 2u32 == 0 && 8u32
        & 2u32 == 0 && 8u32 & 4u32 == 0) by (bit_vector);
}

/// Flags are independent: adding a flag to any mask makes that flag report
/// as set and leaves the report of every other flag as it was. No flag is
/// set in the empty mask.
pub proof fn lemma_flags_independent(flags: u32, f: Flags, g: Flags)
    ensures
        flag_set(flags | f.mask(), f),
        f != g ==> (flag_set(flags | f.mask(), g) <==> flag_set(flags, g)),
        !flag_set(0, g),
{
    let m = f.mask();
    let n = g.mask();
    lemma_single_flag(f, f);
    lemma_single_flag(f, g);
    assert(m & m != 0 ==> (flags | m) & m != 0) by (bit_vector);
    assert(m & n == 0 ==> (flags | m) & n == flags & n) by (bit_vector);
    assert(0u32 & n == 0) by (bit_vector);
}

/// Whether bytes parse depends on their length and string count alone. Where
/// they do, the header has exactly as many offsets as it counts, and each
/// field is the big-endian value found at its place.
pub proof fn lemma_valid_index_parses(bytes: Seq<u8>)
    ensures
        decode_header(bytes) is Ok <==> bytes.len() >= HEADER_PREFIX_LEN && bytes.len()
            >= index_len(field_at(bytes, 4)),
        decode_header(bytes) matches Ok(h) ==> {
            &&& h.well_formed()
            &&& h.version == field_at(bytes, 0)
            &&& h.number_of_strings == field_at(bytes, 4)
            &&& h.longest_length == field_at(bytes, 8)
            &&& h.shortest_length == field_at(bytes, 12)
            &&& h.flags == field_at(bytes, 16)
            &&& h.delim == bytes[20]
            &&& h.offsets.len() == field_at(bytes, 4)
            &&& forall|i: int|
                0 <= i < h.offsets.len() ==> h.offsets[i] == field_at(
                    bytes,
                    OFFSET_TABLE_START + 4 * i,
                )
        },
{
}

/// Writing a well-formed header out and parsing the bytes gives the header back.
pub proof fn lemma_header_round_trip(h: HeaderView)
    requires
        h.well_formed(),
    ensures
        decode_header(encode_header(h)) == Ok::<HeaderView, FormatError>(h),
{
    let bytes = encode_header(h);
    let table = Seq::new(4 * h.offsets.len(), |k: int| be_bytes(h.offsets[k / 4])[k % 4]);
    assert(bytes.len() == OFFSET_TABLE_START + 4 * h.offsets.len());
    assert(bytes.subrange(0, 4) =~= be_bytes(h.version));
    assert(bytes.subrange(4, 8) =~= be_bytes(h.number_of_strings));
    assert(bytes.subrange(8, 12) =~= be_bytes(h.longest_length));
    assert(bytes.subrange(12, 16) =~= be_bytes(h.shortest_length));
    assert(bytes.subrange(16, 20) =~= be_bytes(h.flags));
    lemma_be_round_trip(h.version);
    lemma_be_round_trip(h.number_of_strings);
    lemma_be_round_trip(h.longest_length);
    lemma_be_round_trip(h.shortest_length);
    lemma_be_round_trip(h.flags);
    assert(bytes[20] == h.delim);
    assert forall|i: int| 0 <= i < h.offsets.len() implies field_at(
        bytes,
        OFFSET_TABLE_START + 4 * i,
    ) == h.offsets[i] by {
        let at = OFFSET_TABLE_START + 4 * i;
        assert forall|j: int| 0 <= j < 4 implies bytes.subrange(at, at + 4)[j] == be_bytes(
            h.offsets[i],
        )[j] by {
            assert(bytes[at + j] == table[4 * i + j]);
            assert((4 * i + j) / 4 == i && (4 * i + j) % 4 == j);
        }
        assert(bytes.subrange(at, at + 4) =~= be_bytes(h.offsets[i]));
        lemma_be_round_trip(h.offsets[i]);
    }
    let d = decode_header(bytes)->Ok_0;
    assert(d.offsets =~= h.offsets);
}

} // verus!

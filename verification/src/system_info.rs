//! Querying the system handle table from `ntdll` and reading it back.
//!
//! `NtQuerySystemInformation` wants a buffer large enough for its answer and
//! says `STATUS_INFO_LENGTH_MISMATCH` when the one it got was too small. The
//! caller starts with a buffer of `DEFAULT_BUFFER_SIZE` bytes and doubles it
//! after each such answer, giving up once it would exceed `MAX_BUFFER_SIZE`.
//! `SystemInformationQuery` makes those decisions; the caller performs the
//! queries. The filled buffer holds a `SYSTEM_HANDLE_INFORMATION_EX`, which
//! `parse_system_handle_information` reads.
use vstd::prelude::*;
use vstd::arithmetic::power2::{pow2, lemma2_to64, lemma_pow2_unfold, lemma_pow2_strictly_increases};
use vstd::bytes::{spec_u16_from_le_bytes, spec_u32_from_le_bytes, spec_u64_from_le_bytes};
use crate::text::UnicodeString;

verus! {

/// `SystemExtendedHandleInformation`, the information class of the handle table.
pub const SYSTEM_EXTENDED_HANDLE_INFORMATION: u32 = 64u32;

/// `ObjectNameInformation`, the information class of an object's name.
pub const OBJECT_NAME_INFORMATION: u32 = 1u32;

/// `ObjectTypeInformation`, the information class of an object's type.
pub const OBJECT_TYPE_INFORMATION_CLASS: u32 = 2u32;

/// `STATUS_INFO_LENGTH_MISMATCH` (`0xC0000004`) as a signed status.
pub const STATUS_INFO_LENGTH_MISMATCH: i32 = -1073741820i32;

/// `FILE_TYPE_DISK`, what `GetFileType` says of a handle on a disk file.
pub const FILE_TYPE_DISK: u32 = 0x0001u32;

/// The size of the buffer into which an object's name is queried: a counted
/// string of the largest length, behind its header.
pub const OBJECT_NAME_BUFFER_SIZE: usize = 65552usize;

/// Whether an NT status reports success (it is not negative).
pub fn nt_success(status: i32) -> (r: bool)
    ensures
        r == (status >= 0),
{
    status >= 0
}

/// The size of the first buffer, in bytes.
pub const DEFAULT_BUFFER_SIZE: usize = 65536usize;

/// The largest buffer that is ever asked for, in bytes.
pub const MAX_BUFFER_SIZE: usize = 1073741824usize;

/// The size of the buffer after `doublings` retries.
pub open spec fn buffer_size_after(doublings: nat) -> nat {
    DEFAULT_BUFFER_SIZE as nat * pow2(doublings)
}

/// What to do next in a system-information query.
pub enum QueryAction {
    /// Query again into a fresh buffer of this many bytes.
    Query { buffer_size: usize },
    /// The buffer that was queried last holds the answer.
    Succeeded,
    /// Give up: the query failed, or the answer would not fit.
    Failed,
}

/// The progress of a system-information query that grows its buffer.
pub struct SystemInformationQuery {
    size: usize,
    doublings: Ghost<nat>,
}

impl SystemInformationQuery {
    #[verifier::type_invariant]
    spec fn sizes_in_range(self) -> bool {
        &&& self.doublings@ <= 14
        &&& self.size as nat == buffer_size_after(self.doublings@)
    }

    /// The size of the buffer of the latest query.
    pub closed spec fn buffer_size(&self) -> nat {
        self.size as nat
    }

    /// How many times the buffer has been doubled.
    pub closed spec fn doublings(&self) -> nat {
        self.doublings@
    }

    /// Starts a query: the first buffer has `DEFAULT_BUFFER_SIZE` bytes.
    pub fn new() -> (r: (SystemInformationQuery, QueryAction))
        ensures
            r.0.buffer_size() == DEFAULT_BUFFER_SIZE,
            r.0.doublings() == 0,
            r.1 == (QueryAction::Query { buffer_size: DEFAULT_BUFFER_SIZE }),
    {
        proof {
            lemma2_to64();
        }
        (SystemInformationQuery { size: DEFAULT_BUFFER_SIZE, doublings: Ghost(0) }, QueryAction::Query {
            buffer_size: DEFAULT_BUFFER_SIZE,
        })
    }

    /// The size of the buffer of the latest query.
    pub fn current_buffer_size(&self) -> (r: usize)
        ensures
            r == self.buffer_size(),
            r <= MAX_BUFFER_SIZE,
    {
        proof {
            use_type_invariant(self);
            lemma_buffer_size_bound(self.doublings@);
        }
        self.size
    }

    /// Takes the status that the latest query returned and says what to do:
    /// a length mismatch doubles the buffer while it stays within
    /// `MAX_BUFFER_SIZE`, any other negative status fails, and any other
    /// status means the buffer holds the answer.
    pub fn on_status(&mut self, status: i32) -> (a: QueryAction)
        ensures
            status == STATUS_INFO_LENGTH_MISMATCH && 2 * old(self).buffer_size() <= MAX_BUFFER_SIZE
                ==> {
                &&& final(self).buffer_size() == 2 * old(self).buffer_size()
                &&& final(self).doublings() == old(self).doublings() + 1
                &&& a == (QueryAction::Query { buffer_size: final(self).buffer_size() as usize })
            },
            status == STATUS_INFO_LENGTH_MISMATCH && 2 * old(self).buffer_size() > MAX_BUFFER_SIZE
                ==> a == QueryAction::Failed && *final(self) == *old(self),
            status != STATUS_INFO_LENGTH_MISMATCH && status < 0 ==> a == QueryAction::Failed
                && *final(self) == *old(self),
            status >= 0 ==> a == QueryAction::Succeeded && *final(self) == *old(self),
            final(self).doublings() <= 14,
            final(self).buffer_size() == buffer_size_after(final(self).doublings()),
    {
        proof {
            use_type_invariant(&*self);
            lemma_buffer_size_bound(self.doublings@);
        }
        if status == STATUS_INFO_LENGTH_MISMATCH {
            if self.size > MAX_BUFFER_SIZE / 2 {
                return QueryAction::Failed;
            }
            let ghost d = self.doublings@;
            proof {
                lemma_pow2_unfold(d + 1);
                assert(buffer_size_after(d + 1) == 2 * buffer_size_after(d)) by (nonlinear_arith)
                    requires
                        pow2(d + 1) == 2 * pow2(d),
                        buffer_size_after(d + 1) == DEFAULT_BUFFER_SIZE as nat * pow2(d + 1),
                        buffer_size_after(d) == DEFAULT_BUFFER_SIZE as nat * pow2(d),
                ;
                lemma_buffer_size_bound(d + 1);
            }
            let size = self.size * 2;
            *self = SystemInformationQuery { size, doublings: Ghost(d + 1) };
            QueryAction::Query { buffer_size: self.size }
        } else if status < 0 {
            QueryAction::Failed
        } else {
            QueryAction::Succeeded
        }
    }
}

/// The buffer never grows past `MAX_BUFFER_SIZE`, so it can be doubled at
/// most fourteen times, and a query asks at most fifteen times.
pub proof fn lemma_buffer_size_bound(doublings: nat)
    ensures
        buffer_size_after(doublings) <= MAX_BUFFER_SIZE <==> doublings <= 14,
        buffer_size_after(doublings) >= DEFAULT_BUFFER_SIZE,
{
    lemma2_to64();
    if doublings <= 14 {
        if doublings < 14 {
            lemma_pow2_strictly_increases(doublings, 14);
        }
        assert(DEFAULT_BUFFER_SIZE as nat * pow2(doublings) <= DEFAULT_BUFFER_SIZE as nat * pow2(14)) by (nonlinear_arith)
            requires
                pow2(doublings) <= pow2(14),
        ;
    } else {
        lemma_pow2_strictly_increases(14, doublings);
        assert(DEFAULT_BUFFER_SIZE as nat * pow2(doublings) > DEFAULT_BUFFER_SIZE as nat * pow2(14)) by (nonlinear_arith)
            requires
                pow2(doublings) > pow2(14),
        ;
    }
    assert(pow2(doublings) >= 1) by {
        if doublings > 0 {
            lemma_pow2_strictly_increases(0, doublings);
        }
    }
    assert(DEFAULT_BUFFER_SIZE as nat * pow2(doublings) >= DEFAULT_BUFFER_SIZE as nat) by (nonlinear_arith)
        requires
            pow2(doublings) >= 1,
    ;
}

/// One entry of the system handle table (`SYSTEM_HANDLE_TABLE_ENTRY_INFO_EX`),
/// with the pointer-sized fields widened to 64 bits.
pub struct SystemHandleTableEntryInfoEx {
    pub object: u64,
    pub unique_process_id: u64,
    pub handle_value: u64,
    pub granted_access: u32,
    pub creator_back_trace_index: u16,
    pub object_type_index: u16,
    pub handle_attributes: u32,
    pub reserved: u32,
}

/// The system handle table (`SYSTEM_HANDLE_INFORMATION_EX`).
pub struct SystemHandleInformationEx {
    pub number_of_handles: u64,
    pub reserved: u64,
    pub handles: Vec<SystemHandleTableEntryInfoEx>,
}

/// A pointer-sized little-endian word at `off`, for pointers of `width` bytes.
pub open spec fn word_at(buf: Seq<u8>, off: int, width: nat) -> u64 {
    if width == 4 {
        spec_u32_from_le_bytes(buf.subrange(off, off + 4)) as u64
    } else {
        spec_u64_from_le_bytes(buf.subrange(off, off + 8))
    }
}

/// The size of the table's header: two pointer-sized words.
pub open spec fn header_size(width: nat) -> nat {
    2 * width
}

/// The size of one entry: three pointer-sized words and sixteen bytes.
pub open spec fn entry_size(width: nat) -> nat {
    3 * width + 16
}

/// The entry laid out at `off`.
pub open spec fn entry_at(buf: Seq<u8>, off: int, width: nat) -> SystemHandleTableEntryInfoEx {
    let w = width as int;
    SystemHandleTableEntryInfoEx {
        object: word_at(buf, off, width),
        unique_process_id: word_at(buf, off + w, width),
        handle_value: word_at(buf, off + 2 * w, width),
        granted_access: spec_u32_from_le_bytes(buf.subrange(off + 3 * w, off + 3 * w + 4)),
        creator_back_trace_index: spec_u16_from_le_bytes(buf.subrange(off + 3 * w + 4, off + 3 * w + 6)),
        object_type_index: spec_u16_from_le_bytes(buf.subrange(off + 3 * w + 6, off + 3 * w + 8)),
        handle_attributes: spec_u32_from_le_bytes(buf.subrange(off + 3 * w + 8, off + 3 * w + 12)),
        reserved: spec_u32_from_le_bytes(buf.subrange(off + 3 * w + 12, off + 3 * w + 16)),
    }
}

/// The buffer holds a header and as many entries as the header counts.
pub open spec fn handle_table_fits(buf: Seq<u8>, width: nat) -> bool {
    &&& header_size(width) <= buf.len()
    &&& header_size(width) + word_at(buf, 0, width) * entry_size(width) <= buf.len()
}

fn read_word(buf: &[u8], off: usize, width: usize) -> (r: u64)
    requires
        width == 4 || width == 8,
        off + width <= buf@.len(),
    ensures
        r == word_at(buf@, off as int, width as nat),
{
    proof {
        assert(buf@.len() == buf.len());
    }
    if width == 4 {
        vstd::bytes::u32_from_le_bytes(vstd::slice::slice_subrange(buf, off, off + 4)) as u64
    } else {
        vstd::bytes::u64_from_le_bytes(vstd::slice::slice_subrange(buf, off, off + 8))
    }
}

fn read_entry(buf: &[u8], off: usize, width: usize) -> (r: SystemHandleTableEntryInfoEx)
    requires
        width == 4 || width == 8,
        off + 3 * width + 16 <= buf@.len(),
    ensures
        r == entry_at(buf@, off as int, width as nat),
{
    proof {
        assert(buf@.len() == buf.len());
    }
    let b = off + 3 * width;
    SystemHandleTableEntryInfoEx {
        object: read_word(buf, off, width),
        unique_process_id: read_word(buf, off + width, width),
        handle_value: read_word(buf, off + 2 * width, width),
        granted_access: vstd::bytes::u32_from_le_bytes(vstd::slice::slice_subrange(buf, b, b + 4)),
        creator_back_trace_index: vstd::bytes::u16_from_le_bytes(
            vstd::slice::slice_subrange(buf, b + 4, b + 6),
        ),
        object_type_index: vstd::bytes::u16_from_le_bytes(vstd::slice::slice_subrange(buf, b + 6, b + 8)),
        handle_attributes: vstd::bytes::u32_from_le_bytes(vstd::slice::slice_subrange(buf, b + 8, b + 12)),
        reserved: vstd::bytes::u32_from_le_bytes(vstd::slice::slice_subrange(buf, b + 12, b + 16)),
    }
}

/// Reads the system handle table out of the buffer that
/// `NtQuerySystemInformation` filled, for pointers of `pointer_width` bytes.
///
/// Succeeds exactly when the buffer holds the header and all the entries the
/// header counts; the entries are then read in order from just after the
/// header.
pub fn parse_system_handle_information(buffer: &[u8], pointer_width: usize) -> (r: Option<
    SystemHandleInformationEx,
>)
    requires
        pointer_width == 4 || pointer_width == 8,
    ensures
        r is Some <==> handle_table_fits(buffer@, pointer_width as nat),
        r matches Some(info) ==> {
            &&& info.number_of_handles == word_at(buffer@, 0, pointer_width as nat)
            &&& info.reserved == word_at(buffer@, pointer_width as int, pointer_width as nat)
            &&& info.handles@.len() == info.number_of_handles
            &&& forall|i: int|
                0 <= i < info.handles@.len() ==> #[trigger] info.handles@[i] == entry_at(
                    buffer@,
                    header_size(pointer_width as nat) + i * entry_size(pointer_width as nat),
                    pointer_width as nat,
                )
        },
{
    let w = pointer_width;
    let header: usize = 2 * w;
    let esz: usize = 3 * w + 16;
    if buffer.len() < header {
        return None;
    }
    let count = read_word(buffer, 0, w);
    let reserved = read_word(buffer, w, w);
    let room: usize = (buffer.len() - header) / esz;
    proof {
        let m = (buffer@.len() - header) as int;
        let e = esz as int;
        let c = count as int;
        assert(c * e <= m <==> c <= m / e) by (nonlinear_arith)
            requires
                e > 0,
                m >= 0,
                c >= 0,
        ;
    }
    if count > room as u64 {
        return None;
    }
    let n: usize = count as usize;
    let mut handles: Vec<SystemHandleTableEntryInfoEx> = Vec::new();
    let mut i: usize = 0;
    let mut off: usize = header;
    while i < n
        invariant
            w == 4 || w == 8,
            header == 2 * w,
            esz == 3 * w + 16,
            n as int * esz + header <= buffer@.len(),
            buffer@.len() <= usize::MAX,
            i <= n,
            off as int == header + i as int * esz,
            handles@.len() == i,
            forall|j: int|
                0 <= j < i ==> #[trigger] handles@[j] == entry_at(
                    buffer@,
                    header_size(w as nat) + j * entry_size(w as nat),
                    w as nat,
                ),
        decreases n - i,
    {
        proof {
            let ii = i as int;
            let nn = n as int;
            let e = esz as int;
            assert(ii * e + e <= nn * e) by (nonlinear_arith)
                requires
                    ii < nn,
                    e > 0,
            ;
            assert((ii + 1) * e == ii * e + e) by (nonlinear_arith);
        }
        handles.push(read_entry(buffer, off, w));
        off = off + esz;
        i = i + 1;
    }
    Some(SystemHandleInformationEx { number_of_handles: count, reserved, handles })
}

/// `count` UTF-16 code units stored little-endian from `off`.
pub open spec fn units_at(buf: Seq<u8>, off: int, count: nat) -> Seq<u16> {
    Seq::new(count, |k: int| spec_u16_from_le_bytes(buf.subrange(off + 2 * k, off + 2 * k + 2)))
}

/// The fields of the counted string at the start of an object-name buffer:
/// its length, its buffer size, and its buffer pointer (after padding to the
/// pointer width).
pub open spec fn name_length(buf: Seq<u8>) -> u16 {
    spec_u16_from_le_bytes(buf.subrange(0, 2))
}

pub open spec fn name_maximum_length(buf: Seq<u8>) -> u16 {
    spec_u16_from_le_bytes(buf.subrange(2, 4))
}

pub open spec fn name_pointer(buf: Seq<u8>, width: nat) -> u64 {
    word_at(buf, width as int, width)
}

/// The buffer holds a well-formed counted string: its length is within its
/// buffer size, and a non-null buffer pointer designates bytes of this very
/// buffer, which lies in memory at `base`.
pub open spec fn object_name_fits(buf: Seq<u8>, base: u64, width: nat) -> bool {
    &&& 2 * width <= buf.len()
    &&& name_length(buf) <= name_maximum_length(buf)
    &&& name_pointer(buf, width) != 0 ==> {
        &&& base <= name_pointer(buf, width)
        &&& name_pointer(buf, width) - base + name_maximum_length(buf) <= buf.len()
    }
}

/// Reads the counted string (`OBJECT_NAME_INFORMATION`) that
/// `NtQueryObject` left at the start of `buffer`, a buffer that lies in
/// memory at address `base`, for pointers of `pointer_width` bytes.
///
/// Succeeds exactly when the string is well formed and its characters lie
/// in the buffer; the result then holds the units of the string's whole
/// buffer (`maximum_length / 2` of them), or no buffer for a null pointer.
pub fn parse_object_name(buffer: &[u8], base: u64, pointer_width: usize) -> (r: Option<UnicodeString>)
    requires
        pointer_width == 4 || pointer_width == 8,
    ensures
        r is Some <==> object_name_fits(buffer@, base, pointer_width as nat),
        r matches Some(us) ==> {
            &&& us.length == name_length(buffer@)
            &&& us.maximum_length == name_maximum_length(buffer@)
            &&& us.buffer is None <==> name_pointer(buffer@, pointer_width as nat) == 0
            &&& us.buffer matches Some(b) ==> b@ == units_at(
                buffer@,
                name_pointer(buffer@, pointer_width as nat) - base,
                (name_maximum_length(buffer@) / 2) as nat,
            )
            &&& crate::text::unicode_string_readable(us)
        },
{
    let w = pointer_width;
    let len = buffer.len();
    if len < 2 * w {
        return None;
    }
    let length = vstd::bytes::u16_from_le_bytes(vstd::slice::slice_subrange(buffer, 0, 2));
    let maximum_length = vstd::bytes::u16_from_le_bytes(vstd::slice::slice_subrange(buffer, 2, 4));
    if length > maximum_length {
        return None;
    }
    let ptr = read_word(buffer, w, w);
    if ptr == 0 {
        return Some(UnicodeString { length, maximum_length, buffer: None });
    }
    if ptr < base || ptr - base > (len as u64) || (len as u64) - (ptr - base) < maximum_length as u64 {
        return None;
    }
    let off: usize = (ptr - base) as usize;
    let count: usize = (maximum_length / 2) as usize;
    let mut units: Vec<u16> = Vec::new();
    let mut k: usize = 0;
    while k < count
        invariant
            len == buffer@.len(),
            off + 2 * count <= len,
            k <= count,
            units@ == units_at(buffer@, off as int, k as nat),
        decreases count - k,
    {
        let p = off + 2 * k;
        units.push(vstd::bytes::u16_from_le_bytes(vstd::slice::slice_subrange(buffer, p, p + 2)));
        assert(units@ =~= units_at(buffer@, off as int, (k + 1) as nat));
        k = k + 1;
    }
    Some(UnicodeString { length, maximum_length, buffer: Some(units) })
}

} // verus!

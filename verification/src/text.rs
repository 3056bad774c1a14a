//! UTF-16 text as the Windows API passes it: counted strings, NUL-terminated
//! names, and module file names read back into buffers.
use vstd::prelude::*;

verus! {

/// A counted UTF-16 string as `ntdll` reports it (`UNICODE_STRING`).
///
/// `buffer` holds the code units that the string's buffer pointer designates,
/// or is `None` where that pointer is null.
pub struct UnicodeString {
    /// Length of the string in **bytes** (not code units).
    pub length: u16,
    /// Size of the buffer in bytes.
    pub maximum_length: u16,
    /// The code units at the buffer pointer; `None` for a null pointer.
    pub buffer: Option<Vec<u16>>,
}

/// The code units that a counted string stands for: none when its buffer is
/// null or its length is zero, else the first `length / 2` units.
pub open spec fn unicode_string_units(us: UnicodeString) -> Seq<u16> {
    match us.buffer {
        None => Seq::empty(),
        Some(b) => if us.length == 0 {
            Seq::empty()
        } else {
            b@.take((us.length / 2) as int)
        },
    }
}

/// The buffer of a counted string holds at least the units that its length
/// announces.
pub open spec fn unicode_string_readable(us: UnicodeString) -> bool {
    us.buffer matches Some(b) ==> (us.length != 0 ==> us.length / 2 <= b@.len())
}

/// Reads a counted string into its code units.
pub fn read_unicode_string(us: &UnicodeString) -> (r: Vec<u16>)
    requires
        unicode_string_readable(*us),
    ensures
        r@ == unicode_string_units(*us),
        r@.len() == (if us.buffer is Some && us.length != 0 { us.length / 2 } else { 0 }),
{
    match &us.buffer {
        None => Vec::new(),
        Some(b) => {
            if us.length == 0 {
                Vec::new()
            } else {
                let char_count: usize = (us.length / 2) as usize;
                let mut r: Vec<u16> = Vec::new();
                let mut i: usize = 0;
                while i < char_count
                    invariant
                        char_count <= b@.len(),
                        i <= char_count,
                        r@ == b@.take(i as int),
                    decreases char_count - i,
                {
                    r.push(b[i]);
                    assert(b@.take(i + 1) == b@.take(i as int).push(b@[i as int]));
                    i = i + 1;
                }
                r
            }
        },
    }
}

/// ASCII text with a NUL code unit appended, as UTF-16: the form in which
/// the wide-character Windows functions take names.
pub open spec fn wide_nul_units(text: Seq<u8>) -> Seq<u16> {
    text.map_values(|b: u8| b as u16).push(0u16)
}

/// Encodes ASCII text as a NUL-terminated UTF-16 string.
pub fn wide_nul(text: &[u8]) -> (r: Vec<u16>)
    requires
        forall|i: int| 0 <= i < text@.len() ==> #[trigger] text@[i] < 0x80,
    ensures
        r@ == wide_nul_units(text@),
{
    let mut r: Vec<u16> = Vec::new();
    let mut i: usize = 0;
    while i < text.len()
        invariant
            i <= text@.len(),
            r@ == text@.take(i as int).map_values(|b: u8| b as u16),
        decreases text@.len() - i,
    {
        r.push(text[i] as u16);
        assert(text@.take(i + 1).map_values(|b: u8| b as u16) == text@.take(i as int).map_values(
            |b: u8| b as u16,
        ).push(text@[i as int] as u16));
        i = i + 1;
    }
    assert(text@.take(text@.len() as int) == text@);
    r.push(0u16);
    r
}

/// What `String::from_utf16_lossy` makes of a sequence of UTF-16 code units.
pub uninterp spec fn utf16_lossy(units: Seq<u16>) -> Seq<char>;

/// Calls `String::from_utf16_lossy`.
///
/// Claims that the result is a function of the code units alone, and that
/// where no unit lies in the surrogate range (`0xD800` to `0xDFFF`), each
/// unit decodes to the character of the same value: that is what UTF-16
/// means for such units. What becomes of surrogates, paired or not, is left
/// to the name.
#[verifier::external_body]
fn decode_utf16_lossy(units: &[u16]) -> (s: String)
    ensures
        s@ == utf16_lossy(units@),
        (forall|i: int|
            0 <= i < units@.len() ==> #[trigger] units@[i] < 0xD800 || units@[i] > 0xDFFF) ==> s@
            == units@.map_values(|u: u16| u as char),
{
    String::from_utf16_lossy(units)
}

/// The size, in code units, of the buffer into which a module file name is
/// read.
pub const MODULE_NAME_BUFFER_LEN: usize = 65536usize;

/// The code units of a module file name: the first `len` units of the
/// buffer, or all of them where `len` is larger.
pub open spec fn module_name_units(buffer: Seq<u16>, len: u32) -> Seq<u16> {
    if len <= buffer.len() {
        buffer.take(len as int)
    } else {
        buffer
    }
}

/// The units of a module file name are the buffer's first `len` units when
/// the buffer holds that many, and the whole buffer otherwise.
pub proof fn lemma_module_name_units(buffer: Seq<u16>, len: u32)
    ensures
        len <= buffer.len() ==> module_name_units(buffer, len).len() == len,
        len > buffer.len() ==> module_name_units(buffer, len).len() == buffer.len(),
        forall|i: int|
            0 <= i < module_name_units(buffer, len).len() ==> #[trigger] module_name_units(
                buffer,
                len,
            )[i] == buffer[i],
{
}

/// The path of a process's main module, from the buffer that
/// `GetModuleFileNameExW` filled and the length it returned: none when the
/// length is zero (the call failed), else the text of the first `len` units.
pub fn process_path_from_module_name(buffer: &[u16], len: u32) -> (r: Option<String>)
    ensures
        r is None <==> len == 0,
        r matches Some(s) ==> s@ == utf16_lossy(module_name_units(buffer@, len)),
        ({
            let n: int = if len <= buffer@.len() { len as int } else { buffer@.len() as int };
            (len != 0 && forall|i: int|
                0 <= i < n ==> #[trigger] buffer@[i] < 0xD800 || buffer@[i] > 0xDFFF) ==> (r matches Some(
                s,
            ) && s@.len() == n && forall|i: int| 0 <= i < n ==> #[trigger] s@[i] == buffer@[i] as char)
        }),
{
    if len == 0 {
        return None;
    }
    let n: usize = if (len as usize) <= buffer.len() {
        len as usize
    } else {
        buffer.len()
    };
    let units = vstd::slice::slice_subrange(buffer, 0, n);
    assert(units@ == module_name_units(buffer@, len));
    Some(decode_utf16_lossy(units))
}

} // verus!

//! Where an ELF file keeps what this crate reads of it, and which of it can be read at all.
//!
//! Names, bytes, symbols and segments are read by `xmas_elf`, which panics where it cannot read
//! something. What is computed here is whether it can, and the plain fields of the headers.
//!
//! Numbers are little-endian. A file has 32-bit fields (class 1) or 64-bit ones (class 2), and the
//! tables of either have fixed layouts.
use vstd::prelude::*;
use vstd::slice::slice_subrange;
use vstd::utf8::*;

use crate::symbols::{NameView, SymbolView};

verus! {

// -------------------------------------------------------------------------------------------
// Numbers.

/// The 16-bit number at `at`.
pub open spec fn le16(b: Seq<u8>, at: int) -> int {
    b[at] + 0x100 * b[at + 1]
}

/// The 32-bit number at `at`.
pub open spec fn le32(b: Seq<u8>, at: int) -> int {
    le16(b, at) + 0x1_0000 * le16(b, at + 2)
}

/// The 64-bit number at `at`.
pub open spec fn le64(b: Seq<u8>, at: int) -> int {
    le32(b, at) + 0x1_0000_0000 * le32(b, at + 4)
}

/// Reads the 16-bit number at `at`.
pub fn get16(b: &[u8], at: usize) -> (n: u16)
    requires
        at + 2 <= b@.len(),
    ensures
        n == le16(b@, at as int),
{
    b[at] as u16 + 0x100 * b[at + 1] as u16
}

/// Reads the 32-bit number at `at`.
pub fn get32(b: &[u8], at: usize) -> (n: u32)
    requires
        at + 4 <= b@.len(),
    ensures
        n == le32(b@, at as int),
{
    assert(at + 4 <= b.len());
    get16(b, at) as u32 + 0x1_0000 * get16(b, at + 2) as u32
}

/// Reads the 64-bit number at `at`.
pub fn get64(b: &[u8], at: usize) -> (n: u64)
    requires
        at + 8 <= b@.len(),
    ensures
        n == le64(b@, at as int),
{
    assert(at + 8 <= b.len());
    get32(b, at) as u64 + 0x1_0000_0000 * get32(b, at + 4) as u64
}

// -------------------------------------------------------------------------------------------
// Texts.

/// Where the text that starts at `at` ends: at the first zero byte, or else at the end.
pub open spec fn text_end(s: Seq<u8>, at: int) -> int
    decreases s.len() - at,
{
    if at < 0 || at >= s.len() || s[at] == 0 {
        at
    } else {
        text_end(s, at + 1)
    }
}

/// The bytes of the text that starts at `at`.
pub open spec fn text_bytes(s: Seq<u8>, at: int) -> Seq<u8> {
    s.subrange(at, text_end(s, at))
}

/// Whether a text starts at `at`: a zero byte ends it, and it is UTF-8.
pub open spec fn text_readable(s: Seq<u8>, at: int) -> bool {
    0 <= at && text_end(s, at) < s.len() && valid_utf8(text_bytes(s, at))
}

/// The text that starts at `at`.
pub open spec fn text_at(s: Seq<u8>, at: int) -> Seq<char> {
    decode_utf8(text_bytes(s, at))
}

/// `std::str::from_utf8` accepts the bytes exactly if they are UTF-8.
#[verifier::external_body]
fn is_utf8(bytes: &[u8]) -> (ok: bool)
    ensures
        ok == valid_utf8(bytes@),
{
    std::str::from_utf8(bytes).is_ok()
}

/// Whether a text starts at `at`.
pub fn check_text(s: &[u8], at: usize) -> (ok: bool)
    ensures
        ok == text_readable(s@, at as int),
{
    let mut end: usize = at;
    while end < s.len() && s[end] != 0
        invariant
            at <= end,
            end <= s@.len() || end == at,
            text_end(s@, at as int) == text_end(s@, end as int),
        decreases s@.len() - end,
    {
        end += 1;
    }
    if end >= s.len() {
        return false;
    }
    is_utf8(slice_subrange(s, at, end))
}

// -------------------------------------------------------------------------------------------
// The file header.

/// Whether the file has 64-bit fields.
pub open spec fn wide(b: Seq<u8>) -> bool {
    b[4] == 2
}

/// Why the file is rejected, if it is.
pub open spec fn rejection(b: Seq<u8>) -> Option<Seq<char>> {
    if b.len() < 16 {
        Some("File is shorter than the first ELF header part"@)
    } else if !(b[0] == 0x7f && b[1] == 0x45 && b[2] == 0x4c && b[3] == 0x46) {
        Some("Did not find ELF magic number"@)
    } else if b[4] != 1 && b[4] != 2 {
        Some("Invalid ELF class"@)
    } else {
        None
    }
}

/// Number of bytes of the file header.
pub open spec fn header_size(b: Seq<u8>) -> nat {
    if wide(b) {
        64
    } else {
        52
    }
}

/// Whether the file is either rejected or long enough for its header.
pub open spec fn header_readable(b: Seq<u8>) -> bool {
    rejection(b) is None ==> b.len() >= header_size(b)
}

/// Whether the file is accepted, and long enough for its header.
pub open spec fn opens(b: Seq<u8>) -> bool {
    rejection(b) is None && b.len() >= header_size(b)
}

/// The 16-bit field that is at `narrow` in files with 32-bit fields, at `broad` in the others.
pub open spec fn half_at(b: Seq<u8>, narrow: int, broad: int) -> int {
    if wide(b) {
        le16(b, broad)
    } else {
        le16(b, narrow)
    }
}

/// The address field that is at `narrow` in files with 32-bit fields, at `broad` in the others.
pub open spec fn word_at(b: Seq<u8>, narrow: int, broad: int) -> int {
    if wide(b) {
        le64(b, broad)
    } else {
        le32(b, narrow)
    }
}

/// Number of bytes of an address field, which tables that hold some are aligned to.
pub open spec fn word_size(b: Seq<u8>) -> int {
    if wide(b) {
        8
    } else {
        4
    }
}

/// Where the section header table starts.
pub open spec fn sh_offset(b: Seq<u8>) -> int {
    word_at(b, 32, 40)
}

/// Number of bytes of a section header.
pub open spec fn sh_entry_size(b: Seq<u8>) -> int {
    half_at(b, 46, 58)
}

/// Number of sections.
pub open spec fn sh_count(b: Seq<u8>) -> int {
    half_at(b, 48, 60)
}

/// The section that holds the names of the sections.
pub open spec fn sh_str_index(b: Seq<u8>) -> int {
    half_at(b, 50, 62)
}

/// Where the program header table starts.
pub open spec fn ph_offset(b: Seq<u8>) -> int {
    word_at(b, 28, 32)
}

/// Number of bytes of a program header.
pub open spec fn ph_entry_size(b: Seq<u8>) -> int {
    half_at(b, 42, 54)
}

/// Number of program headers.
pub open spec fn ph_count(b: Seq<u8>) -> int {
    half_at(b, 44, 56)
}

// -------------------------------------------------------------------------------------------
// Section headers.

/// The first index that is not the index of a section.
pub const FIRST_RESERVED: u16 = 0xff00;

/// Where the header of the section starts.
pub open spec fn section_start(b: Seq<u8>, i: int) -> int {
    sh_offset(b) + i * sh_entry_size(b)
}

/// Whether the header of the section lies in the file, where it can be read.
pub open spec fn section_readable(b: Seq<u8>, i: int) -> bool {
    &&& 0 <= i < FIRST_RESERVED
    &&& sh_entry_size(b) >= (if wide(b) {
        64int
    } else {
        40
    })
    &&& section_start(b, i) % word_size(b) == 0
    &&& section_start(b, i) + sh_entry_size(b) <= b.len()
}

/// Where the section's name is among the names of the sections.
pub open spec fn section_name_offset(b: Seq<u8>, i: int) -> int {
    le32(b, section_start(b, i))
}

/// The section's type.
pub open spec fn section_type(b: Seq<u8>, i: int) -> int {
    le32(b, section_start(b, i) + 4)
}

/// The address that the section is linked at.
pub open spec fn section_address(b: Seq<u8>, i: int) -> int {
    word_at(b, section_start(b, i) + 12, section_start(b, i) + 16)
}

/// Where the section's bytes start.
pub open spec fn section_offset(b: Seq<u8>, i: int) -> int {
    word_at(b, section_start(b, i) + 16, section_start(b, i) + 24)
}

/// Number of bytes of the section.
pub open spec fn section_size(b: Seq<u8>, i: int) -> int {
    word_at(b, section_start(b, i) + 20, section_start(b, i) + 32)
}

/// Whether the number is one of a type of sections.
pub open spec fn known_type(t: int) -> bool {
    t <= 11 || 14 <= t <= 18 || t >= 0x6000_0000
}

/// Whether the section has a type that sections with bytes have.
pub open spec fn is_section(b: Seq<u8>, i: int) -> bool {
    known_type(section_type(b, i)) && section_type(b, i) != 0
}

/// Whether the section's bytes lie in the file.
pub open spec fn raw_readable(b: Seq<u8>, i: int) -> bool {
    is_section(b, i) && section_offset(b, i) + section_size(b, i) <= b.len()
}

/// The section's bytes.
pub open spec fn raw_data(b: Seq<u8>, i: int) -> Seq<u8> {
    b.subrange(section_offset(b, i), section_offset(b, i) + section_size(b, i))
}

/// The section's name. Null sections and those of unknown types have none.
pub open spec fn section_name(b: Seq<u8>, i: int) -> NameView {
    let at = section_offset(b, sh_str_index(b)) + section_name_offset(b, i);
    if !is_section(b, i) {
        NameView::Missing
    } else if section_readable(b, sh_str_index(b)) && text_readable(b, at) {
        NameView::Text(text_at(b, at))
    } else {
        NameView::Unreadable
    }
}

// -------------------------------------------------------------------------------------------
// What sections hold.

/// Whether the section's bytes can be read as records of `size` bytes, aligned to `align`.
pub open spec fn records_readable(b: Seq<u8>, i: int, size: int, align: int) -> bool {
    raw_readable(b, i) && section_size(b, i) % size == 0 && section_offset(b, i) % align == 0
}

/// Whether the section's bytes are at least `size`, aligned to four.
pub open spec fn head_readable(b: Seq<u8>, i: int, size: int) -> bool {
    raw_readable(b, i) && section_size(b, i) >= size && section_offset(b, i) % 4 == 0
}

/// Whether what the section holds can be read as what its type says.
pub open spec fn contents_readable(b: Seq<u8>, i: int) -> bool {
    let t = section_type(b, i);
    let word = word_size(b);
    if !is_section(b, i) || t == 8 {
        true
    } else if t == 2 || t == 11 {
        records_readable(b, i, if wide(b) { 24 } else { 16 }, word)
    } else if t == 14 || t == 15 || t == 16 {
        records_readable(b, i, word, word)
    } else if t == 4 {
        records_readable(b, i, 3 * word, word)
    } else if t == 6 || t == 9 {
        records_readable(b, i, 2 * word, word)
    } else if t == 18 {
        records_readable(b, i, 4, 4)
    } else if t == 17 {
        head_readable(b, i, 4) && section_size(b, i) % 4 == 0
    } else if t == 7 {
        wide(b) && head_readable(b, i, 12)
    } else if t == 5 {
        head_readable(b, i, 12)
    } else {
        raw_readable(b, i)
    }
}

/// Whether the section holds symbols with 32-bit fields.
pub open spec fn has_symbols(b: Seq<u8>, i: int) -> bool {
    section_type(b, i) == 2 && !wide(b)
}

/// Number of symbols in the section.
pub open spec fn symbol_count(b: Seq<u8>, i: int) -> nat {
    (section_size(b, i) / 16) as nat
}

/// Where the section's symbol `j` starts.
pub open spec fn symbol_start_at(b: Seq<u8>, i: int, j: int) -> int {
    section_offset(b, i) + 16 * j
}

/// Where the texts are that symbols are named by.
pub enum StringTable {
    /// The search for them meets a section that cannot be read.
    Unreadable,
    /// Nowhere.
    Missing,
    /// In the section of the index.
    At(int),
}

/// The first section called `.strtab`, from the section `i` on.
pub open spec fn string_table(b: Seq<u8>, i: int) -> StringTable
    decreases sh_count(b) - i,
{
    if i >= sh_count(b) {
        StringTable::Missing
    } else if !section_readable(b, i) || section_name(b, i) is Unreadable {
        StringTable::Unreadable
    } else if section_name(b, i) == NameView::Text(".strtab"@) {
        StringTable::At(i)
    } else {
        string_table(b, i + 1)
    }
}

/// The text that symbols name by `offset`.
pub open spec fn string_at(b: Seq<u8>, offset: int) -> NameView {
    match string_table(b, 0) {
        StringTable::Unreadable => NameView::Unreadable,
        StringTable::Missing => NameView::Missing,
        StringTable::At(k) => if section_type(b, k) != 3 {
            NameView::Missing
        } else if raw_readable(b, k) && text_readable(raw_data(b, k), offset) {
            NameView::Text(text_at(raw_data(b, k), offset))
        } else {
            NameView::Unreadable
        },
    }
}

/// The section's symbol `j`.
pub open spec fn symbol_at(b: Seq<u8>, i: int, j: int) -> SymbolView {
    let at = symbol_start_at(b, i, j);
    SymbolView {
        name: string_at(b, le32(b, at)),
        value: le32(b, at + 4) as u64,
        size: le32(b, at + 8) as u64,
        shndx: le16(b, at + 14) as u16,
    }
}

// -------------------------------------------------------------------------------------------
// Program headers.

/// Whether the file has program headers.
pub open spec fn has_segments(b: Seq<u8>) -> bool {
    ph_offset(b) > 0 && ph_entry_size(b) > 0
}

/// Where the program header starts.
pub open spec fn segment_start(b: Seq<u8>, i: int) -> int {
    ph_offset(b) + i * ph_entry_size(b)
}

/// Whether the program header lies in the file, where it can be read.
pub open spec fn segment_readable(b: Seq<u8>, i: int) -> bool {
    &&& ph_entry_size(b) >= (if wide(b) {
        56int
    } else {
        32
    })
    &&& segment_start(b, i) % word_size(b) == 0
    &&& segment_start(b, i) + ph_entry_size(b) <= b.len()
}

/// Whether the segment is one to load.
pub open spec fn segment_loads(b: Seq<u8>, i: int) -> bool {
    le32(b, segment_start(b, i)) == 1
}

/// The segment's virtual address.
pub open spec fn segment_virtual(b: Seq<u8>, i: int) -> int {
    word_at(b, segment_start(b, i) + 8, segment_start(b, i) + 16)
}

/// The segment's physical address.
pub open spec fn segment_physical(b: Seq<u8>, i: int) -> int {
    word_at(b, segment_start(b, i) + 12, segment_start(b, i) + 24)
}

// -------------------------------------------------------------------------------------------
// The same, computed.

/// The fields of the file header that say where the tables are.
#[derive(Clone, Copy, Debug)]
pub(crate) struct Layout {
    wide: bool,
    sh_offset: u64,
    sh_entry_size: u16,
    sh_count: u16,
    sh_str_index: u16,
    ph_offset: u64,
    ph_entry_size: u16,
    ph_count: u16,
}

/// The header of a section.
#[derive(Clone, Copy, Debug)]
pub(crate) struct Header {
    kind: u32,
    name: u32,
    address: u64,
    offset: u64,
    size: u64,
}

impl Layout {
    /// Whether the fields are those of the file.
    pub(crate) closed spec fn describes(self, b: Seq<u8>) -> bool {
        &&& opens(b)
        &&& self.wide == wide(b)
        &&& self.sh_offset == sh_offset(b)
        &&& self.sh_entry_size == sh_entry_size(b)
        &&& self.sh_count == sh_count(b)
        &&& self.sh_str_index == sh_str_index(b)
        &&& self.ph_offset == ph_offset(b)
        &&& self.ph_entry_size == ph_entry_size(b)
        &&& self.ph_count == ph_count(b)
    }

    /// The fields of the file.
    pub(crate) fn of(b: &[u8]) -> (layout: Layout)
        requires
            opens(b@),
        ensures
            layout.describes(b@),
    {
        if b[4] == 2 {
            Layout {
                wide: true,
                sh_offset: get64(b, 40),
                sh_entry_size: get16(b, 58),
                sh_count: get16(b, 60),
                sh_str_index: get16(b, 62),
                ph_offset: get64(b, 32),
                ph_entry_size: get16(b, 54),
                ph_count: get16(b, 56),
            }
        } else {
            Layout {
                wide: false,
                sh_offset: get32(b, 32) as u64,
                sh_entry_size: get16(b, 46),
                sh_count: get16(b, 48),
                sh_str_index: get16(b, 50),
                ph_offset: get32(b, 28) as u64,
                ph_entry_size: get16(b, 42),
                ph_count: get16(b, 44),
            }
        }
    }

    /// Where the entry `i` of a table starts, if it lies in the file, has at least the fields and is
    /// aligned.
    fn entry(&self, b: &[u8], table: u64, entry_size: u16, fields: u16, i: u16) -> (start: Option<
        usize,
    >)
        requires
            self.describes(b@),
        ensures
            start is Some <==> entry_size >= fields && (table + i * entry_size) % word_size(b@) == 0
                && table + i * entry_size + entry_size <= b@.len(),
            start matches Some(start) ==> start == table + i * entry_size,
    {
        assert(i * entry_size <= 0xffff * 0xffff) by (nonlinear_arith)
            requires
                i <= 0xffff,
                entry_size <= 0xffff,
        ;
        let start: u128 = table as u128 + i as u128 * entry_size as u128;
        let aligned = if self.wide {
            start % 8 == 0
        } else {
            start % 4 == 0
        };
        if entry_size >= fields && aligned && start + entry_size as u128 <= b.len() as u128 {
            Some(start as usize)
        } else {
            None
        }
    }

    /// The address field at `narrow` or `broad`.
    fn word(&self, b: &[u8], narrow: usize, broad: usize) -> (n: u64)
        requires
            self.describes(b@),
            if wide(b@) {
                broad + 8 <= b@.len()
            } else {
                narrow + 4 <= b@.len()
            },
        ensures
            n == word_at(b@, narrow as int, broad as int),
    {
        if self.wide {
            get64(b, broad)
        } else {
            get32(b, narrow) as u64
        }
    }

    /// The header of the section, if it can be read.
    pub(crate) fn section(&self, b: &[u8], i: u16) -> (header: Option<Header>)
        requires
            self.describes(b@),
        ensures
            header is Some <==> section_readable(b@, i as int),
            header matches Some(header) ==> header.describes(b@, i as int),
    {
        let fields: u16 = if self.wide {
            64
        } else {
            40
        };
        if i >= FIRST_RESERVED {
            return None;
        }
        match self.entry(b, self.sh_offset, self.sh_entry_size, fields, i) {
            None => None,
            Some(start) => {
                assert(start + fields <= b.len());
                Some(
                    Header {
                        name: get32(b, start),
                        kind: get32(b, start + 4),
                        address: self.word(b, start + 12, start + 16),
                        offset: self.word(b, start + 16, start + 24),
                        size: self.word(b, start + 20, start + 32),
                    },
                )
            },
        }
    }

    /// Whether the program header can be read.
    pub(crate) fn check_segment(&self, b: &[u8], i: u16) -> (ok: bool)
        requires
            self.describes(b@),
        ensures
            ok == segment_readable(b@, i as int),
    {
        let fields: u16 = if self.wide {
            56
        } else {
            32
        };
        self.entry(b, self.ph_offset, self.ph_entry_size, fields, i).is_some()
    }

    /// The number of sections.
    pub(crate) fn section_count(&self, Ghost(b): Ghost<Seq<u8>>) -> (count: u16)
        requires
            self.describes(b),
        ensures
            count == sh_count(b),
    {
        self.sh_count
    }

    /// The number of program headers.
    pub(crate) fn segment_count(&self, Ghost(b): Ghost<Seq<u8>>) -> (count: u16)
        requires
            self.describes(b),
        ensures
            count == ph_count(b),
    {
        self.ph_count
    }

    /// Whether the file has program headers.
    pub(crate) fn has_segments(&self, Ghost(b): Ghost<Seq<u8>>) -> (has: bool)
        requires
            self.describes(b),
        ensures
            has == has_segments(b),
    {
        self.ph_offset > 0 && self.ph_entry_size > 0
    }

    /// Whether the name of the section can be read, or is known to be missing.
    pub(crate) fn check_name(&self, b: &[u8], header: &Header, Ghost(i): Ghost<int>) -> (ok: bool)
        requires
            self.describes(b@),
            header.describes(b@, i),
        ensures
            ok == (section_name(b@, i) !is Unreadable),
    {
        if !header.is_section(Ghost(b@), Ghost(i)) {
            return true;
        }
        match self.section(b, self.sh_str_index) {
            None => false,
            Some(names) => {
                let at: u128 = names.offset as u128 + header.name as u128;
                if at < b.len() as u128 {
                    check_text(b, at as usize)
                } else {
                    assert(!text_readable(b@, at as int));
                    false
                }
            },
        }
    }
}

impl Header {
    /// Whether the header is that of the section.
    pub(crate) closed spec fn describes(self, b: Seq<u8>, i: int) -> bool {
        &&& self.name == section_name_offset(b, i)
        &&& self.kind == section_type(b, i)
        &&& self.address == section_address(b, i)
        &&& self.offset == section_offset(b, i)
        &&& self.size == section_size(b, i)
    }

    /// The address that the section is linked at, and the number of its bytes.
    pub(crate) fn extent(&self, Ghost(b): Ghost<Seq<u8>>, Ghost(i): Ghost<int>) -> (extent: (
        u64,
        u64,
    ))
        requires
            self.describes(b, i),
        ensures
            extent.0 == section_address(b, i),
            extent.1 == section_size(b, i),
    {
        (self.address, self.size)
    }

    /// Whether the section has a type that sections with bytes have.
    pub(crate) fn is_section(&self, Ghost(b): Ghost<Seq<u8>>, Ghost(i): Ghost<int>) -> (is: bool)
        requires
            self.describes(b, i),
        ensures
            is == is_section(b, i),
    {
        self.kind != 0 && (self.kind <= 11 || (14 <= self.kind && self.kind <= 18) || self.kind
            >= 0x6000_0000)
    }

    /// Whether the section holds texts.
    pub(crate) fn holds_texts(&self, Ghost(b): Ghost<Seq<u8>>, Ghost(i): Ghost<int>) -> (holds: bool)
        requires
            self.describes(b, i),
        ensures
            holds == (section_type(b, i) == 3),
    {
        self.kind == 3
    }

    /// Whether the section's bytes lie in the file.
    pub(crate) fn check_raw(&self, b: &[u8], Ghost(i): Ghost<int>) -> (ok: bool)
        requires
            self.describes(b@, i),
        ensures
            ok == raw_readable(b@, i),
    {
        self.is_section(Ghost(b@), Ghost(i)) && self.offset as u128 + self.size as u128
            <= b.len() as u128
    }

    /// Whether a text starts at `at` in the section.
    pub(crate) fn check_text_at(&self, b: &[u8], at: u32, Ghost(i): Ghost<int>) -> (ok: bool)
        requires
            self.describes(b@, i),
        ensures
            ok == (raw_readable(b@, i) && text_readable(raw_data(b@, i), at as int)),
    {
        if !self.check_raw(b, Ghost(i)) {
            return false;
        }
        assert(self.offset + self.size <= b.len());
        let start: usize = self.offset as usize;
        let data: &[u8] = slice_subrange(b, start, start + self.size as usize);
        assert(data@ == raw_data(b@, i));
        if (at as u64) < self.size {
            check_text(data, at as usize)
        } else {
            assert(!text_readable(data@, at as int));
            false
        }
    }

    /// Whether the section's bytes can be read as records of `size` bytes, aligned to `align`.
    fn check_records(&self, b: &[u8], size: u64, align: u64, Ghost(i): Ghost<int>) -> (ok: bool)
        requires
            self.describes(b@, i),
            size > 0,
            align > 0,
        ensures
            ok == records_readable(b@, i, size as int, align as int),
    {
        self.check_raw(b, Ghost(i)) && self.size % size == 0 && self.offset % align == 0
    }

    /// Whether the section's bytes are at least `size`, aligned to four.
    fn check_head(&self, b: &[u8], size: u64, Ghost(i): Ghost<int>) -> (ok: bool)
        requires
            self.describes(b@, i),
        ensures
            ok == head_readable(b@, i, size as int),
    {
        self.check_raw(b, Ghost(i)) && self.size >= size && self.offset % 4 == 0
    }

    /// Whether what the section holds can be read as what its type says.
    pub(crate) fn check_contents(&self, b: &[u8], layout: &Layout, Ghost(i): Ghost<int>) -> (ok: bool)
        requires
            layout.describes(b@),
            self.describes(b@, i),
        ensures
            ok == contents_readable(b@, i),
    {
        let (word, symbol): (u64, u64) = if layout.wide {
            (8, 24)
        } else {
            (4, 16)
        };
        if !self.is_section(Ghost(b@), Ghost(i)) {
            return true;
        }
        match self.kind {
            8 => true,
            2 | 11 => self.check_records(b, symbol, word, Ghost(i)),
            14 | 15 | 16 => self.check_records(b, word, word, Ghost(i)),
            4 => self.check_records(b, 3 * word, word, Ghost(i)),
            6 | 9 => self.check_records(b, 2 * word, word, Ghost(i)),
            18 => self.check_records(b, 4, 4, Ghost(i)),
            17 => self.check_head(b, 4, Ghost(i)) && self.size % 4 == 0,
            7 => layout.wide && self.check_head(b, 12, Ghost(i)),
            5 => self.check_head(b, 12, Ghost(i)),
            _ => self.check_raw(b, Ghost(i)),
        }
    }

    /// Where the name of the section's symbol `j` is among the texts of the symbols.
    pub(crate) fn symbol_name(&self, b: &[u8], j: usize, Ghost(i): Ghost<int>) -> (at: u32)
        requires
            self.describes(b@, i),
            opens(b@),
            has_symbols(b@, i),
            contents_readable(b@, i),
            j < symbol_count(b@, i),
        ensures
            at == le32(b@, symbol_start_at(b@, i, j as int)),
    {
        assert(16 * j + 16 <= self.size);
        assert(self.offset + self.size <= b.len());
        get32(b, self.offset as usize + 16 * j)
    }
}

/// Whether the file is either rejected or long enough for its header.
pub fn check_header(b: &[u8]) -> (ok: bool)
    ensures
        ok == header_readable(b@),
{
    if b.len() < 16 || b[0] != 0x7f || b[1] != 0x45 || b[2] != 0x4c || b[3] != 0x46 {
        true
    } else if b[4] == 1 {
        b.len() >= 52
    } else if b[4] == 2 {
        b.len() >= 64
    } else {
        true
    }
}

// -------------------------------------------------------------------------------------------
// Laws.

/// The first byte of a number is its least significant one.
pub proof fn law_numbers_are_little_endian(b: Seq<u8>, at: int)
    ensures
        le16(b, at) == b[at] + 0x100 * b[at + 1],
        le32(b, at) == b[at] + 0x100 * b[at + 1] + 0x1_0000 * b[at + 2] + 0x100_0000 * b[at + 3],
        le64(b, at) == b[at] + 0x100 * b[at + 1] + 0x1_0000 * b[at + 2] + 0x100_0000 * b[at + 3]
            + 0x1_0000_0000 * b[at + 4] + 0x100_0000_0000 * b[at + 5] + 0x1_0000_0000_0000 * b[at
            + 6] + 0x100_0000_0000_0000 * b[at + 7],
{
}

/// A text goes up to the first zero byte after its start, and can be read exactly if there is one and
/// the bytes before it are UTF-8.
pub proof fn law_text_goes_up_to_the_first_zero(s: Seq<u8>, at: int, end: int)
    requires
        0 <= at <= end < s.len(),
        s[end] == 0,
        forall|i: int| at <= i < end ==> #[trigger] s[i] != 0,
    ensures
        text_readable(s, at) <==> valid_utf8(s.subrange(at, end)),
        text_at(s, at) == decode_utf8(s.subrange(at, end)),
{
    lemma_text_end(s, at, end);
}

/// Without a zero byte after its start a text cannot be read, nor can one that starts outside.
pub proof fn law_endless_text_cannot_be_read(s: Seq<u8>, at: int)
    requires
        at < 0 || forall|i: int| at <= i < s.len() ==> #[trigger] s[i] != 0,
    ensures
        !text_readable(s, at),
{
    if at >= 0 {
        lemma_no_text_end(s, at);
    }
}

/// Without a zero byte no end of a text is found.
proof fn lemma_no_text_end(s: Seq<u8>, at: int)
    requires
        0 <= at,
        forall|i: int| at <= i < s.len() ==> #[trigger] s[i] != 0,
    ensures
        text_end(s, at) >= s.len(),
    decreases s.len() - at,
{
    if at < s.len() {
        lemma_no_text_end(s, at + 1);
    }
}

/// The end of a text is found.
proof fn lemma_text_end(s: Seq<u8>, at: int, end: int)
    requires
        0 <= at <= end < s.len(),
        s[end] == 0,
        forall|i: int| at <= i < end ==> #[trigger] s[i] != 0,
    ensures
        text_end(s, at) == end,
    decreases end - at,
{
    if at < end {
        lemma_text_end(s, at + 1, end);
    }
}

/// A file is rejected for its length, for its first bytes or for its class, in that order, and for
/// nothing else.
pub proof fn law_files_are_rejected_by_their_first_bytes(b: Seq<u8>)
    ensures
        ({
            let magic = b[0] == 0x7f && b[1] == 0x45 && b[2] == 0x4c && b[3] == 0x46;
            if b.len() < 16 {
                rejection(b) == Some("File is shorter than the first ELF header part"@)
            } else if !magic {
                rejection(b) == Some("Did not find ELF magic number"@)
            } else if b[4] != 1 && b[4] != 2 {
                rejection(b) == Some("Invalid ELF class"@)
            } else {
                &&& rejection(b) is None
                &&& header_readable(b) <==> b.len() >= if b[4] == 1 {
                    52int
                } else {
                    64
                }
            }
        }),
        rejection(b) is Some ==> header_readable(b),
{
}

/// Where the file header says that the tables are, and how long they are.
pub proof fn law_file_header_says_where_the_tables_are(b: Seq<u8>)
    ensures
        b[4] == 1 ==> {
            &&& ph_offset(b) == le32(b, 28)
            &&& sh_offset(b) == le32(b, 32)
            &&& ph_entry_size(b) == le16(b, 42)
            &&& ph_count(b) == le16(b, 44)
            &&& sh_entry_size(b) == le16(b, 46)
            &&& sh_count(b) == le16(b, 48)
            &&& sh_str_index(b) == le16(b, 50)
        },
        b[4] == 2 ==> {
            &&& ph_offset(b) == le64(b, 32)
            &&& sh_offset(b) == le64(b, 40)
            &&& ph_entry_size(b) == le16(b, 54)
            &&& ph_count(b) == le16(b, 56)
            &&& sh_entry_size(b) == le16(b, 58)
            &&& sh_count(b) == le16(b, 60)
            &&& sh_str_index(b) == le16(b, 62)
        },
{
}

/// Where the header of a section has its fields, and when it can be read: below the reserved indices,
/// with all its fields, at a multiple of the size of an address, and in the file.
pub proof fn law_section_headers_have_their_fields(b: Seq<u8>, i: int)
    ensures
        ({
            let at = sh_offset(b) + i * sh_entry_size(b);
            &&& b[4] == 1 ==> {
                &&& section_name_offset(b, i) == le32(b, at)
                &&& section_type(b, i) == le32(b, at + 4)
                &&& section_address(b, i) == le32(b, at + 12)
                &&& section_offset(b, i) == le32(b, at + 16)
                &&& section_size(b, i) == le32(b, at + 20)
                &&& section_readable(b, i) <==> 0 <= i < 0xff00 && sh_entry_size(b) >= 40 && at % 4
                    == 0 && at + sh_entry_size(b) <= b.len()
            }
            &&& b[4] == 2 ==> {
                &&& section_name_offset(b, i) == le32(b, at)
                &&& section_type(b, i) == le32(b, at + 4)
                &&& section_address(b, i) == le64(b, at + 16)
                &&& section_offset(b, i) == le64(b, at + 24)
                &&& section_size(b, i) == le64(b, at + 32)
                &&& section_readable(b, i) <==> 0 <= i < 0xff00 && sh_entry_size(b) >= 64 && at % 8
                    == 0 && at + sh_entry_size(b) <= b.len()
            }
        }),
{
}

/// Where a program header has its fields, and when it can be read.
pub proof fn law_program_headers_have_their_fields(b: Seq<u8>, i: int)
    ensures
        ({
            let at = ph_offset(b) + i * ph_entry_size(b);
            &&& segment_loads(b, i) <==> le32(b, at) == 1
            &&& has_segments(b) <==> ph_offset(b) > 0 && ph_entry_size(b) > 0
            &&& b[4] == 1 ==> {
                &&& segment_virtual(b, i) == le32(b, at + 8)
                &&& segment_physical(b, i) == le32(b, at + 12)
                &&& segment_readable(b, i) <==> ph_entry_size(b) >= 32 && at % 4 == 0 && at
                    + ph_entry_size(b) <= b.len()
            }
            &&& b[4] == 2 ==> {
                &&& segment_virtual(b, i) == le64(b, at + 16)
                &&& segment_physical(b, i) == le64(b, at + 24)
                &&& segment_readable(b, i) <==> ph_entry_size(b) >= 56 && at % 8 == 0 && at
                    + ph_entry_size(b) <= b.len()
            }
        }),
{
}

/// The bytes of a section are those of the file from its offset on, as many as its size says, and can
/// be read exactly if they lie in the file and the section has one of the types that are known.
pub proof fn law_bytes_of_a_section_lie_in_the_file(b: Seq<u8>, i: int)
    ensures
        ({
            let t = section_type(b, i);
            let known = 1 <= t <= 11 || 14 <= t <= 18 || 0x6000_0000 <= t;
            let from = section_offset(b, i);
            let to = section_offset(b, i) + section_size(b, i);
            &&& raw_readable(b, i) <==> known && to <= b.len()
            &&& raw_data(b, i) == b.subrange(from, to)
        }),
{
}

/// The name of a section is the text at its offset among the names of the sections. Null sections and
/// those of other types than the known ones have none.
pub proof fn law_name_of_a_section(b: Seq<u8>, i: int)
    ensures
        ({
            let t = section_type(b, i);
            let known = 1 <= t <= 11 || 14 <= t <= 18 || 0x6000_0000 <= t;
            let at = section_offset(b, sh_str_index(b)) + section_name_offset(b, i);
            if !known {
                section_name(b, i) is Missing
            } else if section_readable(b, sh_str_index(b)) && text_readable(b, at) {
                section_name(b, i) == NameView::Text(text_at(b, at))
            } else {
                section_name(b, i) is Unreadable
            }
        }),
{
}

/// When what a section holds can be read: a symbol table if it holds whole entries at aligned addresses,
/// a section without bytes always, and plain bytes if they lie in the file.
pub proof fn law_contents_that_can_be_read(b: Seq<u8>, i: int)
    ensures
        ({
            let t = section_type(b, i);
            let size = section_size(b, i);
            let from = section_offset(b, i);
            let inside = from + size <= b.len();
            let word = if b[4] == 2 {
                8int
            } else {
                4
            };
            &&& t == 0 || t == 8 || t == 12 || t == 13 || 19 <= t < 0x6000_0000 ==> contents_readable(
                b,
                i,
            )
            &&& t == 1 || t == 3 || t == 10 || 0x6000_0000 <= t ==> (contents_readable(b, i)
                <==> inside)
            &&& t == 2 || t == 11 ==> (contents_readable(b, i) <==> inside && from % word == 0
                && size % (2 * word + 8) == 0)
            &&& t == 14 || t == 15 || t == 16 ==> (contents_readable(b, i) <==> inside && from % word
                == 0 && size % word == 0)
            &&& t == 4 ==> (contents_readable(b, i) <==> inside && from % word == 0 && size % (3
                * word) == 0)
            &&& t == 6 || t == 9 ==> (contents_readable(b, i) <==> inside && from % word == 0 && size
                % (2 * word) == 0)
            &&& t == 17 || t == 18 ==> contents_readable(b, i) ==> inside && from % 4 == 0 && size % 4
                == 0
            &&& t == 18 && inside && from % 4 == 0 && size % 4 == 0 ==> contents_readable(b, i)
            &&& t == 17 && inside && from % 4 == 0 && size % 4 == 0 && size >= 4
                ==> contents_readable(b, i)
            &&& t == 5 ==> (contents_readable(b, i) <==> inside && from % 4 == 0 && size >= 12)
            &&& t == 7 ==> (contents_readable(b, i) <==> b[4] == 2 && inside && from % 4 == 0 && size
                >= 12)
            &&& has_symbols(b, i) <==> t == 2 && b[4] != 2
        }),
{
}

/// The symbols of a table are records of sixteen bytes after each other, each with its name, its value,
/// its size and its section at fixed places.
pub proof fn law_symbols_are_records(b: Seq<u8>, i: int, j: int)
    ensures
        ({
            let at = section_offset(b, i) + 16 * j;
            let symbol = symbol_at(b, i, j);
            &&& symbol_count(b, i) == section_size(b, i) / 16
            &&& symbol.name == string_at(b, le32(b, at))
            &&& symbol.value == le32(b, at + 4)
            &&& symbol.size == le32(b, at + 8)
            &&& symbol.shndx == le16(b, at + 14)
        }),
{
}

/// Symbols are named by the texts of the first section called `.strtab`, if it is one of texts.
pub proof fn law_symbols_are_named_by_the_first_string_table(b: Seq<u8>, k: int, offset: int)
    requires
        0 <= k < sh_count(b),
        forall|j: int|
            0 <= j <= k ==> #[trigger] section_readable(b, j) && section_name(b, j) !is Unreadable,
        section_name(b, k) == NameView::Text(".strtab"@),
        forall|j: int| 0 <= j < k ==> #[trigger] section_name(b, j) != NameView::Text(".strtab"@),
    ensures
        if section_type(b, k) != 3 {
            string_at(b, offset) is Missing
        } else if raw_readable(b, k) && text_readable(raw_data(b, k), offset) {
            string_at(b, offset) == NameView::Text(text_at(raw_data(b, k), offset))
        } else {
            string_at(b, offset) is Unreadable
        },
{
    lemma_string_table(b, 0, k);
}

/// The first section called `.strtab` is found.
proof fn lemma_string_table(b: Seq<u8>, from: int, k: int)
    requires
        0 <= from <= k < sh_count(b),
        forall|j: int|
            from <= j <= k ==> #[trigger] section_readable(b, j) && section_name(b, j) !is Unreadable,
        section_name(b, k) == NameView::Text(".strtab"@),
        forall|j: int| from <= j < k ==> #[trigger] section_name(b, j) != NameView::Text(".strtab"@),
    ensures
        string_table(b, from) == StringTable::At(k),
    decreases k - from,
{
    assert(section_readable(b, from));
    if from < k {
        lemma_string_table(b, from + 1, k);
    }
}

/// Symbols have no names where no section is called `.strtab`, if all the sections can be read.
pub proof fn law_no_string_table_no_names(b: Seq<u8>, offset: int)
    requires
        forall|j: int|
            0 <= j < sh_count(b) ==> #[trigger] section_readable(b, j) && section_name(
                b,
                j,
            ) !is Unreadable && section_name(b, j) != NameView::Text(".strtab"@),
    ensures
        string_at(b, offset) is Missing,
{
    lemma_no_string_table(b, 0);
}

/// No section called `.strtab` is found where there is none.
proof fn lemma_no_string_table(b: Seq<u8>, from: int)
    requires
        0 <= from,
        forall|j: int|
            from <= j < sh_count(b) ==> #[trigger] section_readable(b, j) && section_name(
                b,
                j,
            ) !is Unreadable && section_name(b, j) != NameView::Text(".strtab"@),
    ensures
        string_table(b, from) is Missing,
    decreases sh_count(b) - from,
{
    if from < sh_count(b) {
        assert(section_readable(b, from));
        lemma_no_string_table(b, from + 1);
    }
}

} // verus!

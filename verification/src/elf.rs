//! An ELF file as plain values: its sections with their names, bytes and symbols, and its segments.
//!
//! `xmas_elf` reads the file. It refers to records in place: numbers come out as the host orders
//! their bytes, and a record is read only where its address in memory is aligned. The contracts of
//! the functions below that call it do not say so, since they cannot speak of either: what they state
//! holds on little-endian hosts with 64-bit addresses, for a file that starts at an address that is a
//! multiple of eight.
use vstd::prelude::*;
use xmas_elf::program::Type;
use xmas_elf::sections::SectionData;
use xmas_elf::symbol_table::Entry;
use xmas_elf::ElfFile;

use crate::layout::{
    contents_readable, has_segments, has_symbols, header_readable, le16, le32, opens, ph_count,
    raw_data, raw_readable, rejection, section_address, section_name, section_readable, section_size,
    segment_loads, segment_physical, segment_readable, segment_virtual, sh_count, string_at,
    string_table, symbol_at, symbol_count, symbol_start_at, Header, Layout, StringTable,
};
use crate::symbols::{symbols_view, Name, NameView, Symbol, SymbolView};
use crate::text::same_text;

verus! {

/// What a section holds, as far as symbols are concerned.
#[derive(Debug)]
pub enum Symbols {
    /// Something that cannot be read as what the section's type says.
    Unreadable,
    /// No symbols with 32-bit fields.
    Other,
    /// The entries of a symbol table.
    Table(Vec<Symbol>),
}

/// The model of [`Symbols`].
pub enum SymbolsView {
    Unreadable,
    Other,
    Table(Seq<SymbolView>),
}

impl View for Symbols {
    type V = SymbolsView;

    open spec fn view(&self) -> SymbolsView {
        match self {
            Symbols::Unreadable => SymbolsView::Unreadable,
            Symbols::Other => SymbolsView::Other,
            Symbols::Table(symbols) => SymbolsView::Table(symbols_view(symbols@)),
        }
    }
}

/// A section of an ELF file.
#[derive(Debug)]
pub struct ElfSection {
    /// Name of the section.
    pub name: Name,
    /// Address that the section is linked at.
    pub address: u64,
    /// Number of bytes of the section.
    pub size: u64,
    /// The section's bytes, where they lie in the file.
    pub data: Option<Vec<u8>>,
    /// The section's symbols.
    pub symbols: Symbols,
}

/// The model of [`ElfSection`].
pub struct ElfSectionView {
    pub name: NameView,
    pub address: u64,
    pub size: u64,
    pub data: Option<Seq<u8>>,
    pub symbols: SymbolsView,
}

impl View for ElfSection {
    type V = ElfSectionView;

    open spec fn view(&self) -> ElfSectionView {
        ElfSectionView {
            name: self.name@,
            address: self.address,
            size: self.size,
            data: match self.data {
                Some(data) => Some(data@),
                None => None,
            },
            symbols: self.symbols@,
        }
    }
}

/// A segment of an ELF file.
#[derive(Clone, Copy, PartialEq, Eq, Debug, Structural)]
pub struct Segment {
    /// Whether the segment is one to load.
    pub load: bool,
    /// Where the program finds the segment when it runs.
    pub virtual_addr: u64,
    /// Where the segment is loaded to.
    pub physical_addr: u64,
}

/// An ELF file.
#[derive(Debug)]
pub struct ElfImage {
    /// The sections, up to the first whose header cannot be read.
    pub sections: Vec<ElfSection>,
    /// Whether these are all.
    pub complete: bool,
    /// The segments, up to the first whose header cannot be read.
    pub segments: Vec<Segment>,
    /// Whether these are all.
    pub segments_complete: bool,
}

/// The model of [`ElfImage`].
pub struct ElfImageView {
    pub sections: Seq<ElfSectionView>,
    pub complete: bool,
    pub segments: Seq<Segment>,
    pub segments_complete: bool,
}

/// The models of sections.
pub open spec fn sections_view(sections: Seq<ElfSection>) -> Seq<ElfSectionView> {
    sections.map_values(|section: ElfSection| section@)
}

impl View for ElfImage {
    type V = ElfImageView;

    open spec fn view(&self) -> ElfImageView {
        ElfImageView {
            sections: sections_view(self.sections@),
            complete: self.complete,
            segments: self.segments@,
            segments_complete: self.segments_complete,
        }
    }
}

// -------------------------------------------------------------------------------------------
// What a file holds.

/// The first section from `i` on whose header cannot be read, or else the number of sections.
pub open spec fn readable_sections(b: Seq<u8>, i: int) -> int
    decreases sh_count(b) - i,
{
    if i >= sh_count(b) || !section_readable(b, i) {
        i
    } else {
        readable_sections(b, i + 1)
    }
}

/// The first segment from `i` on whose header cannot be read, or else the number of segments.
pub open spec fn readable_segments(b: Seq<u8>, i: int) -> int
    decreases ph_count(b) - i,
{
    if i >= ph_count(b) || !segment_readable(b, i) {
        i
    } else {
        readable_segments(b, i + 1)
    }
}

/// The symbols of the section.
pub open spec fn symbols_of(b: Seq<u8>, i: int) -> SymbolsView {
    if !contents_readable(b, i) {
        SymbolsView::Unreadable
    } else if has_symbols(b, i) {
        SymbolsView::Table(
            Seq::new(
                symbol_count(b, i),
                |j: int| symbol_at(b, i, j),
            ),
        )
    } else {
        SymbolsView::Other
    }
}

/// The section of the file.
pub open spec fn section_of(b: Seq<u8>, i: int) -> ElfSectionView {
    ElfSectionView {
        name: section_name(b, i),
        address: section_address(b, i) as u64,
        size: section_size(b, i) as u64,
        data: if raw_readable(b, i) {
            Some(raw_data(b, i))
        } else {
            None
        },
        symbols: symbols_of(b, i),
    }
}

/// The segment of the file.
pub open spec fn segment_of(b: Seq<u8>, i: int) -> Segment {
    Segment {
        load: segment_loads(b, i),
        virtual_addr: segment_virtual(b, i) as u64,
        physical_addr: segment_physical(b, i) as u64,
    }
}

/// The number of segments, a file without program headers having none.
pub open spec fn segment_count(b: Seq<u8>) -> int {
    if has_segments(b) {
        ph_count(b)
    } else {
        0
    }
}

/// The file.
pub open spec fn image_of(b: Seq<u8>) -> ElfImageView {
    let sections = readable_sections(b, 0);
    let segments = if segment_count(b) == 0 {
        0
    } else {
        readable_segments(b, 0)
    };
    ElfImageView {
        sections: Seq::new(sections as nat, |i: int| section_of(b, i)),
        complete: sections >= sh_count(b),
        segments: Seq::new(segments as nat, |i: int| segment_of(b, i)),
        segments_complete: segments >= segment_count(b),
    }
}

// -------------------------------------------------------------------------------------------
// Reading a file.

/// `ElfFile::new`: whether the file is one, and if not, why.
///
/// This holds on the hosts and for the files that the module names.
#[verifier::external_body]
fn open_file(bytes: &Vec<u8>) -> (opened: Result<(), &'static str>)
    requires
        header_readable(bytes@),
    ensures
        match opened {
            Ok(()) => rejection(bytes@) is None,
            Err(why) => rejection(bytes@) == Some(why@),
        },
{
    ElfFile::new(bytes).map(|_| ())
}

/// `SectionHeader::get_name`: the name of the section, and `None` for the error that it has none.
///
/// This holds on the hosts and for the files that the module names.
#[verifier::external_body]
fn read_section_name(bytes: &Vec<u8>, i: u16) -> (name: Option<String>)
    requires
        opens(bytes@),
        section_readable(bytes@, i as int),
        section_name(bytes@, i as int) !is Unreadable,
    ensures
        match name {
            Some(name) => section_name(bytes@, i as int) == NameView::Text(name@),
            None => section_name(bytes@, i as int) is Missing,
        },
{
    let elf = ElfFile::new(bytes).unwrap();
    elf.section_header(i).unwrap().get_name(&elf).ok().map(|name| name.to_string())
}

/// `SectionHeader::raw_data`: the bytes of the section.
///
/// This holds on the hosts and for the files that the module names.
#[verifier::external_body]
fn read_raw_data(bytes: &Vec<u8>, i: u16) -> (data: Vec<u8>)
    requires
        opens(bytes@),
        section_readable(bytes@, i as int),
        raw_readable(bytes@, i as int),
    ensures
        data@ == raw_data(bytes@, i as int),
{
    let elf = ElfFile::new(bytes).unwrap();
    elf.section_header(i).unwrap().raw_data(&elf).to_vec()
}

/// `SectionHeader::get_data`: the value, the size and the section of each entry of a symbol table
/// with 32-bit fields, and `None` for any other section.
///
/// This holds on the hosts and for the files that the module names.
#[verifier::external_body]
fn read_entries(bytes: &Vec<u8>, i: u16) -> (entries: Option<Vec<(u64, u64, u16)>>)
    requires
        opens(bytes@),
        section_readable(bytes@, i as int),
        contents_readable(bytes@, i as int),
    ensures
        entries is Some <==> has_symbols(bytes@, i as int),
        entries matches Some(entries) ==> {
            &&& entries@.len() == symbol_count(bytes@, i as int)
            &&& forall|j: int|
                0 <= j < entries@.len() ==> {
                    let at = symbol_start_at(bytes@, i as int, j);
                    &&& (#[trigger] entries@[j]).0 == le32(bytes@, at + 4)
                    &&& entries@[j].1 == le32(bytes@, at + 8)
                    &&& entries@[j].2 == le16(bytes@, at + 14)
                }
        },
{
    let elf = ElfFile::new(bytes).unwrap();
    match elf.section_header(i).unwrap().get_data(&elf) {
        Ok(SectionData::SymbolTable32(entries)) => {
            Some(entries.iter().map(|entry| (entry.value(), entry.size(), entry.shndx())).collect())
        }
        _ => None,
    }
}

/// `Entry::get_name` of the entry `j` of a symbol table with 32-bit fields: the name, and `None` for
/// the error that it has none.
///
/// This holds on the hosts and for the files that the module names.
#[verifier::external_body]
fn read_symbol_name(bytes: &Vec<u8>, i: u16, j: usize) -> (name: Option<String>)
    requires
        opens(bytes@),
        section_readable(bytes@, i as int),
        contents_readable(bytes@, i as int),
        has_symbols(bytes@, i as int),
        j < symbol_count(bytes@, i as int),
        symbol_at(bytes@, i as int, j as int).name !is Unreadable,
    ensures
        match name {
            Some(name) => symbol_at(bytes@, i as int, j as int).name == NameView::Text(name@),
            None => symbol_at(bytes@, i as int, j as int).name is Missing,
        },
{
    let elf = ElfFile::new(bytes).unwrap();
    match elf.section_header(i).unwrap().get_data(&elf) {
        Ok(SectionData::SymbolTable32(entries)) => {
            entries[j].get_name(&elf).ok().map(|name| name.to_string())
        }
        _ => None,
    }
}

/// `ElfFile::program_header`, with `get_type`, `virtual_addr` and `physical_addr` of the segment;
/// `None` for the error that the file has no program headers.
///
/// This holds on the hosts and for the files that the module names.
#[verifier::external_body]
fn read_segment(bytes: &Vec<u8>, i: u16) -> (segment: Option<Segment>)
    requires
        opens(bytes@),
        i < ph_count(bytes@),
        has_segments(bytes@) ==> segment_readable(bytes@, i as int),
    ensures
        segment == if has_segments(bytes@) {
            Some(segment_of(bytes@, i as int))
        } else {
            None
        },
{
    let header = ElfFile::new(bytes).unwrap().program_header(i).ok()?;
    let load = header.get_type() == Ok(Type::Load);
    let (virtual_addr, physical_addr) = (header.virtual_addr(), header.physical_addr());
    Some(Segment { load, virtual_addr, physical_addr })
}

/// Where the texts are that symbols are named by.
enum Strings {
    Unreadable,
    Missing,
    At(u16, Header),
}

/// Whether these are the strings of the file.
spec fn are_strings(strings: Strings, b: Seq<u8>) -> bool {
    match strings {
        Strings::Unreadable => string_table(b, 0) is Unreadable,
        Strings::Missing => string_table(b, 0) is Missing,
        Strings::At(k, header) => string_table(b, 0) == StringTable::At(k as int)
            && header.describes(b, k as int),
    }
}

/// The name of the section.
fn section_name_at(bytes: &Vec<u8>, layout: &Layout, header: &Header, i: u16) -> (name: Name)
    requires
        layout.describes(bytes@),
        opens(bytes@),
        section_readable(bytes@, i as int),
        header.describes(bytes@, i as int),
    ensures
        name@ == section_name(bytes@, i as int),
{
    if !layout.check_name(bytes.as_slice(), header, Ghost(i as int)) {
        return Name::Unreadable;
    }
    match read_section_name(bytes, i) {
        Some(name) => Name::Text(name),
        None => Name::Missing,
    }
}

/// Finds the texts that symbols are named by.
fn find_strings(bytes: &Vec<u8>, layout: &Layout) -> (strings: Strings)
    requires
        layout.describes(bytes@),
        opens(bytes@),
    ensures
        are_strings(strings, bytes@),
{
    let count: u16 = layout.section_count(Ghost(bytes@));
    let mut i: u16 = 0;
    while i < count
        invariant
            i <= count,
            count == sh_count(bytes@),
            layout.describes(bytes@),
            opens(bytes@),
            string_table(bytes@, 0) == string_table(bytes@, i as int),
        decreases count - i,
    {
        let header: Header = match layout.section(bytes.as_slice(), i) {
            None => return Strings::Unreadable,
            Some(header) => header,
        };
        match section_name_at(bytes, layout, &header, i) {
            Name::Unreadable => return Strings::Unreadable,
            Name::Missing => {},
            Name::Text(name) => {
                if same_text(name.as_str(), ".strtab") {
                    return Strings::At(i, header);
                }
            },
        }
        i += 1;
    }
    Strings::Missing
}

/// Whether the text that symbols name by `at` can be read, or is known to be missing.
fn check_string(bytes: &Vec<u8>, strings: &Strings, at: u32) -> (ok: bool)
    requires
        are_strings(*strings, bytes@),
    ensures
        ok == (string_at(bytes@, at as int) !is Unreadable),
{
    match strings {
        Strings::Unreadable => false,
        Strings::Missing => true,
        Strings::At(k, header) => !header.holds_texts(Ghost(bytes@), Ghost(*k as int))
            || header.check_text_at(bytes.as_slice(), at, Ghost(*k as int)),
    }
}

/// The symbols of the section.
fn read_symbols(bytes: &Vec<u8>, layout: &Layout, strings: &Strings, header: &Header, i: u16) -> (r:
    Symbols)
    requires
        layout.describes(bytes@),
        opens(bytes@),
        are_strings(*strings, bytes@),
        section_readable(bytes@, i as int),
        header.describes(bytes@, i as int),
    ensures
        r@ == symbols_of(bytes@, i as int),
{
    if !header.check_contents(bytes.as_slice(), layout, Ghost(i as int)) {
        return Symbols::Unreadable;
    }
    let entries: Vec<(u64, u64, u16)> = match read_entries(bytes, i) {
        None => return Symbols::Other,
        Some(entries) => entries,
    };
    let mut symbols: Vec<Symbol> = Vec::new();
    let mut j: usize = 0;
    while j < entries.len()
        invariant
            j <= entries.len(),
            j == symbols.len(),
            opens(bytes@),
            are_strings(*strings, bytes@),
            section_readable(bytes@, i as int),
            header.describes(bytes@, i as int),
            contents_readable(bytes@, i as int),
            has_symbols(bytes@, i as int),
            entries@.len() == symbol_count(bytes@, i as int),
            forall|k: int|
                0 <= k < entries@.len() ==> {
                    let at = symbol_start_at(bytes@, i as int, k);
                    &&& (#[trigger] entries@[k]).0 == le32(bytes@, at + 4)
                    &&& entries@[k].1 == le32(bytes@, at + 8)
                    &&& entries@[k].2 == le16(bytes@, at + 14)
                },
            forall|k: int|
                0 <= k < j ==> (#[trigger] symbols@[k])@ == symbol_at(bytes@, i as int, k),
        decreases entries.len() - j,
    {
        let (value, size, shndx): (u64, u64, u16) = entries[j];
        let at: u32 = header.symbol_name(bytes.as_slice(), j, Ghost(i as int));
        let name: Name = if !check_string(bytes, strings, at) {
            Name::Unreadable
        } else {
            match read_symbol_name(bytes, i, j) {
                Some(name) => Name::Text(name),
                None => Name::Missing,
            }
        };
        symbols.push(Symbol { name, value, size, shndx });
        j += 1;
    }
    assert(symbols_view(symbols@) =~= symbols_of(bytes@, i as int)->Table_0);
    Symbols::Table(symbols)
}

/// The section of the file.
fn read_section(bytes: &Vec<u8>, layout: &Layout, strings: &Strings, header: &Header, i: u16) -> (
section: ElfSection)
    requires
        layout.describes(bytes@),
        opens(bytes@),
        are_strings(*strings, bytes@),
        section_readable(bytes@, i as int),
        header.describes(bytes@, i as int),
    ensures
        section@ == section_of(bytes@, i as int),
{
    let (address, size): (u64, u64) = header.extent(Ghost(bytes@), Ghost(i as int));
    let data: Option<Vec<u8>> = if header.check_raw(bytes.as_slice(), Ghost(i as int)) {
        Some(read_raw_data(bytes, i))
    } else {
        None
    };
    ElfSection {
        name: section_name_at(bytes, layout, header, i),
        address,
        size,
        data,
        symbols: read_symbols(bytes, layout, strings, header, i),
    }
}

impl ElfImage {
    /// Reads the file.
    pub fn read(bytes: &Vec<u8>) -> (r: Result<ElfImage, &'static str>)
        requires
            header_readable(bytes@),
        ensures
            match r {
                Ok(image) => rejection(bytes@) is None && image@ == image_of(bytes@),
                Err(why) => rejection(bytes@) == Some(why@),
            },
    {
        if let Err(why) = open_file(bytes) {
            return Err(why);
        }
        let layout: Layout = Layout::of(bytes.as_slice());
        let strings: Strings = find_strings(bytes, &layout);
        let count: u16 = layout.section_count(Ghost(bytes@));
        let mut sections: Vec<ElfSection> = Vec::new();
        let mut complete = true;
        let mut i: u16 = 0;
        while i < count && complete
            invariant
                i <= count,
                i == sections.len(),
                count == sh_count(bytes@),
                layout.describes(bytes@),
                opens(bytes@),
                are_strings(strings, bytes@),
                readable_sections(bytes@, 0) == readable_sections(bytes@, i as int),
                complete || !section_readable(bytes@, i as int) && i < count,
                forall|k: int|
                    0 <= k < i ==> (#[trigger] sections@[k])@ == section_of(bytes@, k),
            decreases count - i + if complete { 1int } else { 0 },
        {
            match layout.section(bytes.as_slice(), i) {
                None => {
                    complete = false;
                },
                Some(header) => {
                    sections.push(read_section(bytes, &layout, &strings, &header, i));
                    i += 1;
                },
            }
        }
        let (segments, segments_complete): (Vec<Segment>, bool) = read_segments(bytes, &layout);
        let image = ElfImage { sections, complete, segments, segments_complete };
        assert(image@.sections =~= image_of(bytes@).sections);
        Ok(image)
    }
}

/// The segments of the file, up to the first whose header cannot be read, and whether these are all.
fn read_segments(bytes: &Vec<u8>, layout: &Layout) -> (r: (Vec<Segment>, bool))
    requires
        layout.describes(bytes@),
        opens(bytes@),
    ensures
        r.0@ == image_of(bytes@).segments,
        r.1 == image_of(bytes@).segments_complete,
{
    let has = layout.has_segments(Ghost(bytes@));
    let count: u16 = layout.segment_count(Ghost(bytes@));
    let mut segments: Vec<Segment> = Vec::new();
    let mut i: u16 = 0;
    while i < count
        invariant
            i <= count,
            count == ph_count(bytes@),
            layout.describes(bytes@),
            opens(bytes@),
            has == has_segments(bytes@),
            i == 0 || has,
            i == segments.len(),
            readable_segments(bytes@, 0) == readable_segments(bytes@, i as int),
            forall|k: int| 0 <= k < i ==> (#[trigger] segments@[k]) == segment_of(bytes@, k),
        decreases count - i,
    {
        if has && !layout.check_segment(bytes.as_slice(), i) {
            assert(segments@ =~= image_of(bytes@).segments);
            return (segments, false);
        }
        match read_segment(bytes, i) {
            None => {
                assert(segments@ =~= image_of(bytes@).segments);
                return (segments, true);
            },
            Some(segment) => segments.push(segment),
        }
        i += 1;
    }
    assert(segments@ =~= image_of(bytes@).segments);
    (segments, true)
}

// -------------------------------------------------------------------------------------------
// Laws.

/// The sections are read up to the first whose header cannot be read.
proof fn lemma_readable_sections(b: Seq<u8>, from: int, n: int)
    requires
        0 <= from <= n,
        forall|i: int| from <= i < n ==> #[trigger] section_readable(b, i) && i < sh_count(b),
        n >= sh_count(b) || !section_readable(b, n),
    ensures
        readable_sections(b, from) == n,
    decreases n - from,
{
    if from < n {
        assert(section_readable(b, from));
        lemma_readable_sections(b, from + 1, n);
    }
}

/// The segments are read up to the first whose header cannot be read.
proof fn lemma_readable_segments(b: Seq<u8>, from: int, n: int)
    requires
        0 <= from <= n,
        forall|i: int| from <= i < n ==> #[trigger] segment_readable(b, i) && i < ph_count(b),
        n >= ph_count(b) || !segment_readable(b, n),
    ensures
        readable_segments(b, from) == n,
    decreases n - from,
{
    if from < n {
        assert(segment_readable(b, from));
        lemma_readable_segments(b, from + 1, n);
    }
}

/// A file whose section headers can all be read has all of its sections, in order, each with its name,
/// its address, its size, all of its bytes if they lie in the file, and its symbols.
pub proof fn law_every_section_is_read(b: Seq<u8>, i: int)
    requires
        forall|k: int| 0 <= k < sh_count(b) ==> #[trigger] section_readable(b, k),
    ensures
        image_of(b).complete,
        image_of(b).sections.len() == sh_count(b),
        0 <= i < sh_count(b) ==> ({
            let section = image_of(b).sections[i];
            &&& section.name == section_name(b, i)
            &&& section.address == section_address(b, i)
            &&& section.size == section_size(b, i)
            &&& match section.data {
                Some(data) => raw_readable(b, i) && data == raw_data(b, i),
                None => !raw_readable(b, i),
            }
        }),
{
    lemma_readable_sections(b, 0, sh_count(b));
}

/// A section header that cannot be read ends what is known of the file: the sections before it are
/// there, and the file is not complete.
pub proof fn law_unreadable_section_header_ends_the_sections(b: Seq<u8>, n: int)
    requires
        0 <= n < sh_count(b),
        forall|k: int| 0 <= k < n ==> #[trigger] section_readable(b, k),
        !section_readable(b, n),
    ensures
        !image_of(b).complete,
        image_of(b).sections.len() == n,
{
    lemma_readable_sections(b, 0, n);
}

/// A symbol table has all of its symbols, in order, wherever it can be read.
pub proof fn law_every_symbol_is_read(b: Seq<u8>, i: int, j: int)
    ensures
        contents_readable(b, i) && has_symbols(b, i) ==> {
            &&& symbols_of(b, i) matches SymbolsView::Table(symbols) && symbols.len()
                == symbol_count(b, i) && (0 <= j < symbols.len() ==> symbols[j] == symbol_at(b, i, j))
        },
        contents_readable(b, i) && !has_symbols(b, i) ==> symbols_of(b, i) is Other,
        !contents_readable(b, i) ==> symbols_of(b, i) is Unreadable,
        section_of(b, i).symbols == symbols_of(b, i),
{
}

/// A file whose program headers can all be read has all of its segments, in order, and one without
/// program headers has none.
pub proof fn law_every_segment_is_read(b: Seq<u8>, i: int)
    requires
        has_segments(b) ==> forall|k: int| 0 <= k < ph_count(b) ==> #[trigger] segment_readable(b, k),
    ensures
        image_of(b).segments_complete,
        image_of(b).segments.len() == if has_segments(b) {
            ph_count(b)
        } else {
            0
        },
        has_segments(b) && 0 <= i < ph_count(b) ==> ({
            let segment = image_of(b).segments[i];
            &&& segment.load == segment_loads(b, i)
            &&& segment.virtual_addr == segment_virtual(b, i)
            &&& segment.physical_addr == segment_physical(b, i)
        }),
{
    if has_segments(b) {
        lemma_readable_segments(b, 0, ph_count(b));
    }
}

/// A program header that cannot be read ends what is known of the segments.
pub proof fn law_unreadable_program_header_ends_the_segments(b: Seq<u8>, n: int)
    requires
        has_segments(b),
        0 <= n < ph_count(b),
        forall|k: int| 0 <= k < n ==> #[trigger] segment_readable(b, k),
        !segment_readable(b, n),
    ensures
        !image_of(b).segments_complete,
        image_of(b).segments.len() == n,
{
    lemma_readable_segments(b, 0, n);
}

} // verus!

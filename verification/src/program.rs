//! The program in an ELF file: what is loaded onto the target, what the registers are before it
//! runs, and what the backtrace needs to know of it.
use core::ops::Range;
use vstd::prelude::*;
use vstd::slice::slice_to_vec;
use vstd::string::*;

use crate::elf::{
    image_of, sections_view, ElfImage, ElfImageView, ElfSection, ElfSectionView, Segment, Symbols,
    SymbolsView,
};
use crate::layout::{check_header, get32, header_readable, le32, rejection};
use crate::symbols::{
    all_usable, code_ranges, range_names_view, rtt_address, sorting_of, symbols_view,
    try_range_names_from, Name, NameView, RangeNames, Shndx, Symbol, SymbolView,
};
use crate::text::same_text;

verus! {

// -------------------------------------------------------------------------------------------
// What is loaded.

/// ELF section to be loaded onto the target.
#[derive(Debug)]
pub struct Section {
    /// Address of the first word.
    pub start: u32,
    /// The words.
    pub data: Vec<u32>,
}

/// The model of [`Section`].
pub struct SectionView {
    pub start: u32,
    pub data: Seq<u32>,
}

impl View for Section {
    type V = SectionView;

    open spec fn view(&self) -> SectionView {
        SectionView { start: self.start, data: self.data@ }
    }
}

/// The models of sections.
pub open spec fn loaded_view(sections: Seq<Section>) -> Seq<SectionView> {
    sections.map_values(|section: Section| section@)
}

/// The .data section has a physical address different than its virtual address; the data is loaded
/// into the physical address (which would normally be in FLASH) so that cortex-m-rt doesn't corrupt
/// the variables in .data during initialization -- it would be best if cortex-m-rt's `init_data`
/// call could be disabled but there's no such feature.
#[derive(Debug)]
pub struct Data {
    /// Address that the words are loaded to.
    pub phys: u32,
    /// Address that the program uses the words at.
    pub virt: u32,
    /// The words.
    pub data: Vec<u32>,
}

/// The model of [`Data`].
pub struct DataView {
    pub phys: u32,
    pub virt: u32,
    pub data: Seq<u32>,
}

impl View for Data {
    type V = DataView;

    open spec fn view(&self) -> DataView {
        DataView { phys: self.phys, virt: self.virt, data: self.data@ }
    }
}

/// Registers to update before running the program.
#[derive(Clone, Copy, PartialEq, Eq, Debug, Structural)]
pub struct InitialRegisters {
    /// Initial stack pointer.
    pub sp: u32,
    /// Reset handler.
    pub pc: u32,
    /// Address of the vector table.
    pub vtor: u32,
}

/// What an ELF file says of a program.
#[derive(Debug)]
pub struct Program {
    /// The sections to load, in the order of the file.
    pub sections: Vec<Section>,
    /// The `.data` section.
    pub dotdata: Option<Data>,
    /// The registers before the program runs.
    pub registers: InitialRegisters,
    /// The `.debug_frame` section.
    pub debug_frame: Option<Vec<u8>>,
    /// The functions of the `.symtab` section.
    pub range_names: Option<RangeNames>,
    /// Where the RTT control block lives.
    pub rtt_addr: Option<u32>,
}

/// Why a program cannot be loaded.
#[derive(Debug)]
pub enum LoadError {
    /// The file is not an ELF file.
    NotElf(&'static str),
    /// The section of the name does not start and end at multiples of four.
    Unaligned(String),
    /// An address is above those of the target.
    OutOfRange,
    /// No segment that is loaded starts where `.data` does.
    NoDataAddress,
    /// There is no `.vector_table` section.
    NoVectorTable,
}

/// The model of [`LoadError`].
pub enum LoadErrorView {
    NotElf(Seq<char>),
    Unaligned(Seq<char>),
    OutOfRange,
    NoDataAddress,
    NoVectorTable,
}

impl View for LoadError {
    type V = LoadErrorView;

    open spec fn view(&self) -> LoadErrorView {
        match self {
            LoadError::NotElf(why) => LoadErrorView::NotElf(why@),
            LoadError::Unaligned(name) => LoadErrorView::Unaligned(name@),
            LoadError::OutOfRange => LoadErrorView::OutOfRange,
            LoadError::NoDataAddress => LoadErrorView::NoDataAddress,
            LoadError::NoVectorTable => LoadErrorView::NoVectorTable,
        }
    }
}

impl LoadErrorView {
    /// What is said of the error.
    pub open spec fn text(self) -> Seq<char> {
        match self {
            LoadErrorView::NotElf(why) => why,
            LoadErrorView::Unaligned(name) => "section `"@ + name + "` is not 4-byte aligned"@,
            LoadErrorView::OutOfRange => "out of range integral type conversion attempted"@,
            LoadErrorView::NoDataAddress =>
                "couldn't extract `.data` physical address from the ELF"@,
            LoadErrorView::NoVectorTable => "`.vector_table` section is missing"@,
        }
    }
}

impl LoadError {
    /// What is said of the error.
    pub fn message(&self) -> (message: String)
        ensures
            message@ == self@.text(),
    {
        match self {
            LoadError::NotElf(why) => (*why).to_owned(),
            LoadError::Unaligned(name) => {
                let mut message: String = "section `".to_owned();
                message.append(name.as_str());
                message.append("` is not 4-byte aligned");
                message
            },
            LoadError::OutOfRange => "out of range integral type conversion attempted".to_owned(),
            LoadError::NoDataAddress =>
                "couldn't extract `.data` physical address from the ELF".to_owned(),
            LoadError::NoVectorTable => "`.vector_table` section is missing".to_owned(),
        }
    }
}

// -------------------------------------------------------------------------------------------
// What is taken from each section.

/// The words that the bytes are, a rest of less than four bytes being dropped.
pub open spec fn words_of(data: Seq<u8>) -> Seq<u32> {
    Seq::new(data.len() / 4, |k: int| le32(data, 4 * k) as u32)
}

/// Whether the section has the name.
pub open spec fn named(section: ElfSectionView, name: Seq<char>) -> bool {
    section.name == NameView::Text(name)
}

/// Whether the section is to be loaded: it has one of the names, and is not empty. The call frame
/// information never is.
pub open spec fn is_loaded(section: ElfSectionView, candidates: Seq<Seq<char>>) -> bool {
    &&& section.name is Text
    &&& !named(section, ".debug_frame"@)
    &&& candidates.contains(section.name->Text_0)
    &&& section.size != 0
}

/// The symbols of the section, if it has any.
pub open spec fn symbols_in(section: ElfSectionView) -> Seq<SymbolView> {
    match section.symbols {
        SymbolsView::Table(symbols) => symbols,
        _ => seq![],
    }
}

/// What comes of looking at something.
pub enum Verdict {
    /// It cannot be read.
    Unusable,
    /// It is an error.
    Rejected(LoadErrorView),
    /// It is used.
    Fine,
}

/// What comes of looking at the section, code being in the section `text`.
pub open spec fn section_verdict(
    section: ElfSectionView,
    text: Option<Shndx>,
    candidates: Seq<Seq<char>>,
) -> Verdict {
    let has_data = section.data is Some;
    if section.name is Unreadable || (named(section, ".debug_frame"@) && !has_data) {
        Verdict::Unusable
    } else if named(section, ".symtab"@) && (section.symbols is Unreadable || !all_usable(
        symbols_in(section),
        text,
    )) {
        Verdict::Unusable
    } else if !is_loaded(section, candidates) {
        Verdict::Fine
    } else if section.size % 4 != 0 || section.address % 4 != 0 {
        Verdict::Rejected(LoadErrorView::Unaligned(section.name->Text_0))
    } else if section.address > u32::MAX {
        Verdict::Rejected(LoadErrorView::OutOfRange)
    } else if !has_data || (named(section, ".vector_table"@) && words_of(
        section.data->Some_0,
    ).len() < 2) {
        Verdict::Unusable
    } else {
        Verdict::Fine
    }
}

/// What comes of looking at the sections, from `i` on: what comes of the first that is not fine.
pub open spec fn sections_verdict(
    sections: Seq<ElfSectionView>,
    text: Option<Shndx>,
    candidates: Seq<Seq<char>>,
    i: int,
) -> Verdict
    decreases sections.len() - i,
{
    if i < 0 || i >= sections.len() {
        Verdict::Fine
    } else {
        match section_verdict(sections[i], text, candidates) {
            Verdict::Fine => sections_verdict(sections, text, candidates, i + 1),
            stop => stop,
        }
    }
}

/// What is loaded of the section.
pub open spec fn section_loaded(section: ElfSectionView) -> SectionView {
    SectionView { start: section.address as u32, data: words_of(section.data->Some_0) }
}

/// What is loaded of the sections, in their order. `.data` is not among it: it is specially handled.
pub open spec fn sections_loaded(
    sections: Seq<ElfSectionView>,
    candidates: Seq<Seq<char>>,
) -> Seq<SectionView>
    decreases sections.len(),
{
    if sections.len() == 0 {
        seq![]
    } else {
        let before = sections_loaded(sections.drop_last(), candidates);
        if is_loaded(sections.last(), candidates) && !named(sections.last(), ".data"@) {
            before.push(section_loaded(sections.last()))
        } else {
            before
        }
    }
}

/// The last of the sections with the name, if it is one.
pub open spec fn last_named(sections: Seq<ElfSectionView>, name: Seq<char>) -> Option<
    ElfSectionView,
>
    decreases sections.len(),
{
    if sections.len() == 0 {
        None
    } else if named(sections.last(), name) {
        Some(sections.last())
    } else {
        last_named(sections.drop_last(), name)
    }
}

/// The last of the sections with the name that are to be loaded, if it is one.
pub open spec fn last_loaded(
    sections: Seq<ElfSectionView>,
    candidates: Seq<Seq<char>>,
    name: Seq<char>,
) -> Option<ElfSectionView>
    decreases sections.len(),
{
    if sections.len() == 0 {
        None
    } else if is_loaded(sections.last(), candidates) && named(sections.last(), name) {
        Some(sections.last())
    } else {
        last_loaded(sections.drop_last(), candidates, name)
    }
}

/// The registers that the vector table gives.
pub open spec fn registers_of(vector_table: ElfSectionView) -> InitialRegisters {
    let loaded = section_loaded(vector_table);
    InitialRegisters { sp: loaded.data[0], pc: loaded.data[1], vtor: loaded.start }
}

/// What comes of looking for a section.
pub enum Search {
    /// The search meets what cannot be read.
    Unusable,
    /// There is none.
    Missing,
    /// The index of the section.
    At(int),
}

/// The section that code is in: the first one called `.text`, from `i` on.
pub open spec fn find_text(image: ElfImageView, i: int) -> Search
    decreases image.sections.len() - i,
{
    if i < 0 || i >= image.sections.len() {
        if image.complete {
            Search::Missing
        } else {
            Search::Unusable
        }
    } else if image.sections[i].name is Unreadable || i > u16::MAX {
        Search::Unusable
    } else if named(image.sections[i], ".text"@) {
        Search::At(i)
    } else {
        find_text(image, i + 1)
    }
}

/// The index that symbols give of the section that code is in.
pub open spec fn text_index(image: ElfImageView) -> Option<Shndx> {
    match find_text(image, 0) {
        Search::At(i) => Some(i as u16),
        _ => None,
    }
}

/// Where `.data` is loaded to.
pub enum Address {
    /// The search meets what cannot be read.
    Unusable,
    /// It is an error.
    Rejected(LoadErrorView),
    /// The address.
    At(u32),
}

/// Where `.data` is loaded to: the physical address of the first segment to load that starts at its
/// virtual address, from the segment `i` on.
pub open spec fn data_address(image: ElfImageView, virt: u32, i: int) -> Address
    decreases image.segments.len() - i,
{
    if i < 0 || i >= image.segments.len() {
        if image.segments_complete {
            Address::Rejected(LoadErrorView::NoDataAddress)
        } else {
            Address::Unusable
        }
    } else {
        let segment = image.segments[i];
        if !segment.load {
            data_address(image, virt, i + 1)
        } else if segment.virtual_addr > u32::MAX {
            Address::Rejected(LoadErrorView::OutOfRange)
        } else if segment.virtual_addr != virt {
            data_address(image, virt, i + 1)
        } else if segment.physical_addr > u32::MAX {
            Address::Rejected(LoadErrorView::OutOfRange)
        } else {
            Address::At(segment.physical_addr as u32)
        }
    }
}

/// What comes of looking at the file.
pub open spec fn image_verdict(image: ElfImageView, candidates: Seq<Seq<char>>) -> Verdict {
    let stop = sections_verdict(image.sections, text_index(image), candidates, 0);
    let dotdata = last_loaded(image.sections, candidates, ".data"@);
    let address = data_address(image, dotdata->Some_0.address as u32, 0);
    if find_text(image, 0) is Unusable {
        Verdict::Unusable
    } else if stop !is Fine {
        stop
    } else if !image.complete {
        Verdict::Unusable
    } else if dotdata is Some && address is Unusable {
        Verdict::Unusable
    } else if dotdata is Some && address is Rejected {
        Verdict::Rejected(address->Rejected_0)
    } else if last_loaded(image.sections, candidates, ".vector_table"@) is None {
        Verdict::Rejected(LoadErrorView::NoVectorTable)
    } else {
        Verdict::Fine
    }
}

/// Whether the functions and the RTT control block are those of the section, code being in the
/// section `text`.
pub open spec fn names_from(
    range_names: Option<Seq<(Range<u32>, String)>>,
    rtt_addr: Option<u32>,
    symtab: Option<ElfSectionView>,
    text: Option<Shndx>,
) -> bool {
    match symtab {
        None => range_names is None && rtt_addr is None,
        Some(symtab) => {
            &&& range_names is Some
            &&& sorting_of(
                range_names_view(range_names->Some_0),
                code_ranges(symbols_in(symtab), text),
            )
            &&& rtt_addr == rtt_address(symbols_in(symtab))
        },
    }
}

/// The views of the functions.
pub open spec fn optional_names(range_names: Option<RangeNames>) -> Option<
    Seq<(Range<u32>, String)>,
> {
    match range_names {
        Some(range_names) => Some(range_names@),
        None => None,
    }
}

/// The bytes of the section, if there is one.
pub open spec fn bytes_of(section: Option<ElfSectionView>) -> Option<Seq<u8>> {
    match section {
        Some(section) => section.data,
        None => None,
    }
}

/// The bytes of a vector, if there is one.
pub open spec fn optional_bytes(bytes: Option<Vec<u8>>) -> Option<Seq<u8>> {
    match bytes {
        Some(bytes) => Some(bytes@),
        None => None,
    }
}

/// What is loaded of `.data`, if the program has some.
pub open spec fn data_loaded(image: ElfImageView, candidates: Seq<Seq<char>>) -> Option<DataView> {
    match last_loaded(image.sections, candidates, ".data"@) {
        None => None,
        Some(section) => {
            let loaded = section_loaded(section);
            Some(
                DataView {
                    phys: data_address(image, loaded.start, 0)->At_0,
                    virt: loaded.start,
                    data: loaded.data,
                },
            )
        },
    }
}

/// The data, if there is some.
pub open spec fn optional_data(data: Option<Data>) -> Option<DataView> {
    match data {
        Some(data) => Some(data@),
        None => None,
    }
}

impl Program {
    /// Whether this is the program of the file.
    pub open spec fn is_of(self, image: ElfImageView, candidates: Seq<Seq<char>>) -> bool {
        &&& loaded_view(self.sections@) == sections_loaded(image.sections, candidates)
        &&& optional_data(self.dotdata) == data_loaded(image, candidates)
        &&& self.registers == registers_of(
            last_loaded(image.sections, candidates, ".vector_table"@)->Some_0,
        )
        &&& optional_bytes(self.debug_frame) == bytes_of(
            last_named(image.sections, ".debug_frame"@),
        )
        &&& names_from(
            optional_names(self.range_names),
            self.rtt_addr,
            last_named(image.sections, ".symtab"@),
            text_index(image),
        )
    }
}

/// The texts.
pub open spec fn texts_view(texts: Seq<&str>) -> Seq<Seq<char>> {
    texts.map_values(|text: &str| text@)
}


// -------------------------------------------------------------------------------------------
// Gathering the program.

/// The words that the bytes are, a rest of less than four bytes being dropped.
pub fn to_words(data: &[u8]) -> (words: Vec<u32>)
    ensures
        words@ == words_of(data@),
{
    let count: usize = data.len() / 4;
    let mut words: Vec<u32> = Vec::new();
    let mut k: usize = 0;
    while k < count
        invariant
            k <= count,
            count == data@.len() / 4,
            count * 4 <= usize::MAX,
            k == words.len(),
            forall|j: int| 0 <= j < k ==> #[trigger] words@[j] == le32(data@, 4 * j),
        decreases count - k,
    {
        words.push(get32(data, 4 * k));
        k += 1;
    }
    assert(words@ =~= words_of(data@));
    words
}

/// Whether the text is one of the texts.
fn contains_text(texts: &Vec<&'static str>, text: &str) -> (found: bool)
    ensures
        found == texts_view(texts@).contains(text@),
{
    let mut i: usize = 0;
    while i < texts.len()
        invariant
            i <= texts.len(),
            forall|j: int| 0 <= j < i ==> #[trigger] texts_view(texts@)[j] != text@,
        decreases texts.len() - i,
    {
        assert(texts_view(texts@)[i as int] == texts@[i as int]@);
        if same_text(texts[i], text) {
            return true;
        }
        i += 1;
    }
    false
}

/// What the sections before some section gave.
struct Gathered {
    sections: Vec<Section>,
    dotdata: Option<Section>,
    registers: Option<InitialRegisters>,
    debug_frame: Option<Vec<u8>>,
    range_names: Option<RangeNames>,
    rtt_addr: Option<u32>,
}

/// What is loaded of the section, if there is one.
spec fn optional_loaded(section: Option<ElfSectionView>) -> Option<SectionView> {
    match section {
        Some(section) => Some(section_loaded(section)),
        None => None,
    }
}

/// The section, if there is one.
spec fn optional_section(section: Option<Section>) -> Option<SectionView> {
    match section {
        Some(section) => Some(section@),
        None => None,
    }
}

/// The registers that the vector table gives, if there is one.
spec fn optional_registers(vector_table: Option<ElfSectionView>) -> Option<InitialRegisters> {
    match vector_table {
        Some(vector_table) => Some(registers_of(vector_table)),
        None => None,
    }
}

impl Gathered {
    /// Whether this is what the sections gave.
    spec fn is_of(
        self,
        sections: Seq<ElfSectionView>,
        text: Option<Shndx>,
        candidates: Seq<Seq<char>>,
    ) -> bool {
        &&& loaded_view(self.sections@) == sections_loaded(sections, candidates)
        &&& optional_section(self.dotdata) == optional_loaded(
            last_loaded(sections, candidates, ".data"@),
        )
        &&& self.registers == optional_registers(
            last_loaded(sections, candidates, ".vector_table"@),
        )
        &&& optional_bytes(self.debug_frame) == bytes_of(last_named(sections, ".debug_frame"@))
        &&& names_from(
            optional_names(self.range_names),
            self.rtt_addr,
            last_named(sections, ".symtab"@),
            text,
        )
    }

    /// Takes what the next section gives; `None` where it cannot be used.
    fn take(
        &mut self,
        section: &ElfSection,
        text: Option<Shndx>,
        candidates: &Vec<&'static str>,
        Ghost(before): Ghost<Seq<ElfSectionView>>,
    ) -> (r: Option<Result<(), LoadError>>)
        requires
            old(self).is_of(before, text, texts_view(candidates@)),
        ensures
            match r {
                None => section_verdict(section@, text, texts_view(candidates@)) is Unusable,
                Some(Err(error)) => section_verdict(section@, text, texts_view(candidates@))
                    == Verdict::Rejected(error@),
                Some(Ok(())) => {
                    &&& section_verdict(section@, text, texts_view(candidates@)) is Fine
                    &&& final(self).is_of(before.push(section@), text, texts_view(candidates@))
                },
            },
    {
        let ghost after = before.push(section@);
        proof {
            reveal_strlit(".debug_frame");
            reveal_strlit(".symtab");
            reveal_strlit(".vector_table");
            reveal_strlit(".data");
            assert(after.drop_last() =~= before);
            assert(after.last() == section@);
            // the names have lengths of their own
            assert(".debug_frame"@.len() == 12);
            assert(".symtab"@.len() == 7);
            assert(".vector_table"@.len() == 13);
            assert(".data"@.len() == 5);
        }
        let name: &str = match &section.name {
            Name::Unreadable => return None,
            Name::Missing => return Some(Ok(())),
            Name::Text(name) => name.as_str(),
        };
        if same_text(name, ".debug_frame") {
            return match &section.data {
                None => None,
                Some(data) => {
                    self.debug_frame = Some(slice_to_vec(data.as_slice()));
                    Some(Ok(()))
                },
            };
        }
        if same_text(name, ".symtab") {
            let none: Vec<Symbol> = Vec::new();
            assert(symbols_view(none@) =~= seq![]);
            let symbols: &Vec<Symbol> = match &section.symbols {
                Symbols::Unreadable => return None,
                Symbols::Other => &none,
                Symbols::Table(symbols) => symbols,
            };
            assert(symbols_view(symbols@) == symbols_in(section@));
            match try_range_names_from(symbols, text) {
                None => return None,
                Some((range_names, rtt_addr)) => {
                    self.range_names = Some(range_names);
                    self.rtt_addr = rtt_addr;
                },
            }
        }
        if !contains_text(candidates, name) || section.size == 0 {
            return Some(Ok(()));
        }
        if section.size % 4 != 0 || section.address % 4 != 0 {
            return Some(Err(LoadError::Unaligned(name.to_owned())));
        }
        if section.address > u32::MAX as u64 {
            return Some(Err(LoadError::OutOfRange));
        }
        let start: u32 = section.address as u32;
        let data: Vec<u32> = match &section.data {
            None => return None,
            Some(data) => to_words(data.as_slice()),
        };
        if same_text(name, ".data") {
            self.dotdata = Some(Section { start, data });
            return Some(Ok(()));
        }
        if same_text(name, ".vector_table") {
            if data.len() < 2 {
                return None;
            }
            self.registers = Some(InitialRegisters { sp: data[0], pc: data[1], vtor: start });
        }
        let ghost sections = self.sections@;
        self.sections.push(Section { start, data });
        assert(loaded_view(self.sections@) =~= loaded_view(sections).push(
            section_loaded(section@),
        ));
        Some(Ok(()))
    }
}

/// What comes of looking for the section that code is in.
enum Text {
    Unusable,
    Missing,
    At(Shndx),
}

/// Looks for the section that code is in.
fn search_text(image: &ElfImage) -> (text: Text)
    ensures
        match text {
            Text::Unusable => find_text(image@, 0) is Unusable,
            Text::Missing => find_text(image@, 0) is Missing,
            Text::At(i) => find_text(image@, 0) == Search::At(i as int),
        },
{
    let mut i: usize = 0;
    while i < image.sections.len()
        invariant
            i <= image.sections.len(),
            find_text(image@, 0) == find_text(image@, i as int),
        decreases image.sections.len() - i,
    {
        assert(image@.sections[i as int] == image.sections@[i as int]@);
        if i > u16::MAX as usize {
            return Text::Unusable;
        }
        match &image.sections[i].name {
            Name::Unreadable => return Text::Unusable,
            Name::Missing => {},
            Name::Text(name) => {
                if same_text(name.as_str(), ".text") {
                    return Text::At(i as u16);
                }
            },
        }
        i += 1;
    }
    if image.complete {
        Text::Missing
    } else {
        Text::Unusable
    }
}

/// Looks for the address that `.data` is loaded to; `None` where the search meets what cannot be
/// read.
fn search_data_address(image: &ElfImage, virt: u32) -> (r: Option<Result<u32, LoadError>>)
    ensures
        match r {
            None => data_address(image@, virt, 0) is Unusable,
            Some(Err(error)) => data_address(image@, virt, 0) == Address::Rejected(error@),
            Some(Ok(phys)) => data_address(image@, virt, 0) == Address::At(phys),
        },
{
    let mut i: usize = 0;
    while i < image.segments.len()
        invariant
            i <= image.segments.len(),
            data_address(image@, virt, 0) == data_address(image@, virt, i as int),
        decreases image.segments.len() - i,
    {
        let segment: Segment = image.segments[i];
        if segment.load {
            if segment.virtual_addr > u32::MAX as u64 {
                return Some(Err(LoadError::OutOfRange));
            }
            if segment.virtual_addr as u32 == virt {
                if segment.physical_addr > u32::MAX as u64 {
                    return Some(Err(LoadError::OutOfRange));
                }
                return Some(Ok(segment.physical_addr as u32));
            }
        }
        i += 1;
    }
    if image.segments_complete {
        Some(Err(LoadError::NoDataAddress))
    } else {
        None
    }
}

/// Gathers the program of the file, the sections to load being among the candidates; `None` where
/// the file cannot be used.
pub fn gather(image: &ElfImage, candidates: &Vec<&'static str>) -> (r: Option<
    Result<Program, LoadError>,
>)
    ensures
        match r {
            None => image_verdict(image@, texts_view(candidates@)) is Unusable,
            Some(Err(error)) => image_verdict(image@, texts_view(candidates@))
                == Verdict::Rejected(error@),
            Some(Ok(program)) => {
                &&& image_verdict(image@, texts_view(candidates@)) is Fine
                &&& program.is_of(image@, texts_view(candidates@))
            },
        },
{
    let text: Option<Shndx> = match search_text(image) {
        Text::Unusable => return None,
        Text::Missing => None,
        Text::At(i) => Some(i),
    };
    let ghost view = image@.sections;
    let ghost names = texts_view(candidates@);
    let mut gathered: Gathered = Gathered {
        sections: Vec::new(),
        dotdata: None,
        registers: None,
        debug_frame: None,
        range_names: None,
        rtt_addr: None,
    };
    let mut i: usize = 0;
    assert(loaded_view(gathered.sections@) =~= sections_loaded(view.take(0), names));
    while i < image.sections.len()
        invariant
            i <= image.sections.len(),
            view == image@.sections,
            names == texts_view(candidates@),
            gathered.is_of(view.take(i as int), text, names),
            sections_verdict(view, text, names, 0) == sections_verdict(view, text, names, i as int),
            text == text_index(image@),
            find_text(image@, 0) !is Unusable,
        decreases image.sections.len() - i,
    {
        assert(view[i as int] == image.sections@[i as int]@);
        assert(view.take(i + 1) =~= view.take(i as int).push(view[i as int]));
        match gathered.take(&image.sections[i], text, candidates, Ghost(view.take(i as int))) {
            None => return None,
            Some(Err(error)) => return Some(Err(error)),
            Some(Ok(())) => {},
        }
        i += 1;
    }
    assert(view.take(i as int) =~= view);
    if !image.complete {
        return None;
    }
    let Gathered { sections, dotdata, registers, debug_frame, range_names, rtt_addr } = gathered;
    let dotdata: Option<Data> = match dotdata {
        None => None,
        Some(section) => match search_data_address(image, section.start) {
            None => return None,
            Some(Err(error)) => return Some(Err(error)),
            Some(Ok(phys)) => Some(Data { phys, virt: section.start, data: section.data }),
        },
    };
    match registers {
        None => Some(Err(LoadError::NoVectorTable)),
        Some(registers) => Some(
            Ok(Program { sections, dotdata, registers, debug_frame, range_names, rtt_addr }),
        ),
    }
}

/// The names of the sections used in cortex-m-rt that are loaded, `.data` to its physical address.
/// `.uninit` is not loaded, and neither is `.bss`: the program (cortex-m-rt) zeroes it.
pub open spec fn candidate_names() -> Seq<Seq<char>> {
    seq![".vector_table"@, ".text"@, ".rodata"@, ".data"@]
}

/// The names of the sections that are loaded.
pub fn candidates() -> (names: Vec<&'static str>)
    ensures
        texts_view(names@) == candidate_names(),
{
    let names: Vec<&'static str> = vec![".vector_table", ".text", ".rodata", ".data"];
    assert(texts_view(names@) =~= candidate_names());
    names
}

/// What comes of looking at the bytes of the file.
pub open spec fn file_verdict(bytes: Seq<u8>) -> Verdict {
    if !header_readable(bytes) {
        Verdict::Unusable
    } else {
        match rejection(bytes) {
            Some(why) => Verdict::Rejected(LoadErrorView::NotElf(why)),
            None => image_verdict(image_of(bytes), candidate_names()),
        }
    }
}

/// Reads an ELF file from the file's bytes; `None` where it is too short for its header.
pub fn open(bytes: &Vec<u8>) -> (r: Option<Result<ElfImage, LoadError>>)
    ensures
        match r {
            None => !header_readable(bytes@),
            Some(Err(error)) => {
                &&& header_readable(bytes@)
                &&& rejection(bytes@) matches Some(why)
                &&& error@ == LoadErrorView::NotElf(why)
            },
            Some(Ok(image)) => {
                &&& header_readable(bytes@)
                &&& rejection(bytes@) is None
                &&& image@ == image_of(bytes@)
            },
        },
{
    if !check_header(bytes.as_slice()) {
        return None;
    }
    match ElfImage::read(bytes) {
        Err(why) => Some(Err(LoadError::NotElf(why))),
        Ok(image) => Some(Ok(image)),
    }
}

/// Gathers the program of an ELF file from the file's bytes; `None` where the file cannot be used.
pub fn load(bytes: &Vec<u8>) -> (r: Option<Result<Program, LoadError>>)
    ensures
        match r {
            None => file_verdict(bytes@) is Unusable,
            Some(Err(error)) => file_verdict(bytes@) == Verdict::Rejected(error@),
            Some(Ok(program)) => {
                &&& file_verdict(bytes@) is Fine
                &&& program.is_of(image_of(bytes@), candidate_names())
            },
        },
{
    match open(bytes) {
        None => None,
        Some(Err(error)) => Some(Err(error)),
        Some(Ok(image)) => gather(&image, &candidates()),
    }
}

// -------------------------------------------------------------------------------------------
// Laws.

/// Where no section stops the search, every section is fine.
proof fn lemma_every_section_is_fine(
    sections: Seq<ElfSectionView>,
    text: Option<Shndx>,
    candidates: Seq<Seq<char>>,
    i: int,
    j: int,
)
    requires
        0 <= i <= j < sections.len(),
        sections_verdict(sections, text, candidates, i) is Fine,
    ensures
        section_verdict(sections[j], text, candidates) is Fine,
    decreases j - i,
{
    if i < j {
        lemma_every_section_is_fine(sections, text, candidates, i + 1, j);
    }
}

/// Everything that is loaded is a section of the file with one of the names, and not `.data`.
pub proof fn law_only_candidates_are_loaded(
    sections: Seq<ElfSectionView>,
    candidates: Seq<Seq<char>>,
    k: int,
) -> (i: int)
    requires
        0 <= k < sections_loaded(sections, candidates).len(),
    ensures
        0 <= i < sections.len(),
        is_loaded(sections[i], candidates),
        !named(sections[i], ".data"@),
        sections_loaded(sections, candidates)[k] == section_loaded(sections[i]),
    decreases sections.len(),
{
    let last = sections.len() - 1;
    let before = sections_loaded(sections.drop_last(), candidates);
    if k < before.len() {
        law_only_candidates_are_loaded(sections.drop_last(), candidates, k)
    } else {
        last
    }
}

/// Every section of the file with one of the names is loaded, but for empty ones and `.data`.
pub proof fn law_every_candidate_is_loaded(
    sections: Seq<ElfSectionView>,
    candidates: Seq<Seq<char>>,
    i: int,
)
    requires
        0 <= i < sections.len(),
        is_loaded(sections[i], candidates),
        !named(sections[i], ".data"@),
    ensures
        sections_loaded(sections, candidates).contains(section_loaded(sections[i])),
    decreases sections.len(),
{
    let loaded = sections_loaded(sections, candidates);
    let before = sections_loaded(sections.drop_last(), candidates);
    if i == sections.len() - 1 {
        assert(loaded[before.len() as int] == section_loaded(sections[i]));
    } else {
        law_every_candidate_is_loaded(sections.drop_last(), candidates, i);
        let k = choose|k: int| 0 <= k < before.len() && before[k] == section_loaded(sections[i]);
        assert(loaded[k] == section_loaded(sections[i]));
    }
}

/// The vector table that the registers come from is loaded with the other sections.
pub proof fn law_vector_table_is_loaded(image: ElfImageView, candidates: Seq<Seq<char>>)
    requires
        image_verdict(image, candidates) is Fine,
    ensures
        ({
            let vector_table = last_loaded(
                image.sections,
                candidates,
                ".vector_table"@,
            )->Some_0;
            &&& sections_loaded(image.sections, candidates).contains(section_loaded(vector_table))
            &&& section_loaded(vector_table).data.len() >= 2
            &&& registers_of(vector_table).sp == section_loaded(vector_table).data[0]
            &&& registers_of(vector_table).pc == section_loaded(vector_table).data[1]
            &&& registers_of(vector_table).vtor == section_loaded(vector_table).start
        }),
{
    let i = lemma_last_loaded_is_section(image.sections, candidates, ".vector_table"@);
    lemma_every_section_is_fine(image.sections, text_index(image), candidates, 0, i);
    assert(!named(image.sections[i], ".data"@)) by {
        reveal_strlit(".vector_table");
        reveal_strlit(".data");
        assert(".vector_table"@.len() != ".data"@.len());
    }
    law_every_candidate_is_loaded(image.sections, candidates, i);
}

/// A section that is found is one of the sections.
proof fn lemma_last_loaded_is_section(
    sections: Seq<ElfSectionView>,
    candidates: Seq<Seq<char>>,
    name: Seq<char>,
) -> (i: int)
    requires
        last_loaded(sections, candidates, name) is Some,
    ensures
        0 <= i < sections.len(),
        sections[i] == last_loaded(sections, candidates, name)->Some_0,
        is_loaded(sections[i], candidates),
        named(sections[i], name),
    decreases sections.len(),
{
    if is_loaded(sections.last(), candidates) && named(sections.last(), name) {
        sections.len() - 1
    } else {
        lemma_last_loaded_is_section(sections.drop_last(), candidates, name)
    }
}

/// Everything that is loaded starts at a multiple of four.
pub proof fn law_loaded_sections_are_aligned(
    image: ElfImageView,
    candidates: Seq<Seq<char>>,
    k: int,
)
    requires
        image_verdict(image, candidates) is Fine,
        0 <= k < sections_loaded(image.sections, candidates).len(),
    ensures
        sections_loaded(image.sections, candidates)[k].start % 4 == 0,
{
    let i = law_only_candidates_are_loaded(image.sections, candidates, k);
    lemma_every_section_is_fine(image.sections, text_index(image), candidates, 0, i);
}

/// Of the sections used in cortex-m-rt, `.bss` and `.uninit` are not loaded.
pub proof fn law_zeroed_sections_are_not_loaded(section: ElfSectionView)
    requires
        named(section, ".bss"@) || named(section, ".uninit"@),
    ensures
        !is_loaded(section, candidate_names()),
{
    reveal_strlit(".vector_table");
    reveal_strlit(".text");
    reveal_strlit(".rodata");
    reveal_strlit(".data");
    reveal_strlit(".bss");
    reveal_strlit(".uninit");
    let names = candidate_names();
    if is_loaded(section, names) {
        let i = choose|i: int| 0 <= i < names.len() && names[i] == section.name->Text_0;
        assert(names[i].len() == section.name->Text_0.len());
        assert(names[i][1] == section.name->Text_0[1]);
    }
}

/// No byte is lost in the words of data whose length is a multiple of four: each is one of the four
/// of its word, the first being the least significant.
pub proof fn law_words_keep_the_bytes(data: Seq<u8>, i: int)
    requires
        data.len() % 4 == 0,
        0 <= i < data.len(),
    ensures
        4 * words_of(data).len() == data.len(),
        i % 4 == 0 ==> data[i] == words_of(data)[i / 4] % 0x100,
        i % 4 == 1 ==> data[i] == words_of(data)[i / 4] / 0x100 % 0x100,
        i % 4 == 2 ==> data[i] == words_of(data)[i / 4] / 0x1_0000 % 0x100,
        i % 4 == 3 ==> data[i] == words_of(data)[i / 4] / 0x100_0000,
{
    let at = 4 * (i / 4);
    assert(words_of(data)[i / 4] as int == le32(data, at));
}

/// The address that `.data` is loaded to is the physical address of a segment to load that starts at
/// its virtual address.
pub proof fn law_data_address_is_that_of_a_segment(image: ElfImageView, virt: u32, from: int) -> (i:
    int)
    requires
        from >= 0,
        data_address(image, virt, from) is At,
    ensures
        from <= i < image.segments.len(),
        image.segments[i].load,
        image.segments[i].virtual_addr == virt,
        image.segments[i].physical_addr == data_address(image, virt, from)->At_0,
    decreases image.segments.len() - from,
{
    let segment = image.segments[from];
    if segment.load && segment.virtual_addr == virt {
        from
    } else {
        law_data_address_is_that_of_a_segment(image, virt, from + 1)
    }
}

/// What is loaded of a section is all of it, at its address: one word for every four bytes, the first
/// of them being the least significant.
pub proof fn law_section_is_loaded_whole(section: ElfSectionView, k: int)
    requires
        section.address <= 0xffff_ffff,
        section.data is Some,
    ensures
        ({
            let bytes = section.data->Some_0;
            let loaded = section_loaded(section);
            &&& loaded.start == section.address
            &&& loaded.data.len() == bytes.len() as int / 4
            &&& 0 <= k && 4 * k + 4 <= bytes.len() ==> loaded.data[k] as int == bytes[4 * k] + 0x100
                * bytes[4 * k + 1] + 0x1_0000 * bytes[4 * k + 2] + 0x100_0000 * bytes[4 * k + 3]
        }),
{
}

/// What is loaded of the sections is what is loaded of each that has one of the names, is not empty, and
/// is neither `.data` nor `.debug_frame`, in the order of the file.
pub proof fn law_sections_are_loaded_in_order(
    sections: Seq<ElfSectionView>,
    candidates: Seq<Seq<char>>,
)
    ensures
        sections_loaded(sections, candidates) == sections.filter(
            |s: ElfSectionView|
                {
                    &&& s.name is Text
                    &&& candidates.contains(s.name->Text_0)
                    &&& s.size != 0
                    &&& s.name->Text_0 != ".data"@
                    &&& s.name->Text_0 != ".debug_frame"@
                },
        ).map_values(|s: ElfSectionView| section_loaded(s)),
    decreases sections.len(),
{
    reveal(Seq::filter);
    let wanted = |s: ElfSectionView|
        {
            &&& s.name is Text
            &&& candidates.contains(s.name->Text_0)
            &&& s.size != 0
            &&& s.name->Text_0 != ".data"@
            &&& s.name->Text_0 != ".debug_frame"@
        };
    if sections.len() > 0 {
        law_sections_are_loaded_in_order(sections.drop_last(), candidates);
        assert(sections_loaded(sections, candidates) =~= sections.filter(wanted).map_values(
            |s: ElfSectionView| section_loaded(s),
        ));
    } else {
        assert(sections.filter(wanted).map_values(|s: ElfSectionView| section_loaded(s)) =~= seq![]);
    }
}

/// A program has every section of the file with one of the names, but for empty ones, `.data` and
/// `.debug_frame`: at its address, and with all its bytes.
pub proof fn law_program_has_every_section(
    program: Program,
    image: ElfImageView,
    candidates: Seq<Seq<char>>,
    i: int,
) -> (k: int)
    requires
        image_verdict(image, candidates) is Fine,
        program.is_of(image, candidates),
        0 <= i < image.sections.len(),
        image.sections[i].name is Text,
        candidates.contains(image.sections[i].name->Text_0),
        image.sections[i].name->Text_0 != ".data"@,
        image.sections[i].name->Text_0 != ".debug_frame"@,
        image.sections[i].size != 0,
    ensures
        0 <= k < program.sections.len(),
        image.sections[i].data is Some,
        program.sections@[k].start == image.sections[i].address,
        4 * program.sections@[k].data.len() <= image.sections[i].data->Some_0.len() < 4
            * program.sections@[k].data.len() + 4,
        forall|w: int|
            0 <= w < program.sections@[k].data.len() ==> #[trigger] program.sections@[k].data@[w]
                == le32(image.sections[i].data->Some_0, 4 * w),
{
    let section = image.sections[i];
    lemma_every_section_is_fine(image.sections, text_index(image), candidates, 0, i);
    law_every_candidate_is_loaded(image.sections, candidates, i);
    let loaded = loaded_view(program.sections@);
    let k = choose|k: int| 0 <= k < loaded.len() && loaded[k] == section_loaded(section);
    assert(program.sections@[k]@ == loaded[k]);
    assert forall|w: int| 0 <= w < program.sections@[k].data.len() implies #[trigger]
    program.sections@[k].data@[w] == le32(section.data->Some_0, 4 * w) by {
        law_section_is_loaded_whole(section, w);
    }
    k
}

/// The registers of a program are the first words of its vector table: the last section of that name
/// that is not empty.
pub proof fn law_registers_are_those_of_the_vector_table(
    program: Program,
    image: ElfImageView,
    candidates: Seq<Seq<char>>,
    i: int,
)
    requires
        image_verdict(image, candidates) is Fine,
        program.is_of(image, candidates),
        candidates.contains(".vector_table"@),
        0 <= i < image.sections.len(),
        image.sections[i].name == NameView::Text(".vector_table"@),
        image.sections[i].size != 0,
        forall|j: int|
            i < j < image.sections.len() ==> (#[trigger] image.sections[j]).size == 0
                || image.sections[j].name != NameView::Text(".vector_table"@),
    ensures
        ({
            let bytes = image.sections[i].data->Some_0;
            &&& image.sections[i].data is Some
            &&& bytes.len() >= 8
            &&& program.registers.vtor == image.sections[i].address
            &&& program.registers.sp == bytes[0] + 0x100 * bytes[1] + 0x1_0000 * bytes[2]
                + 0x100_0000 * bytes[3]
            &&& program.registers.pc == bytes[4] + 0x100 * bytes[5] + 0x1_0000 * bytes[6]
                + 0x100_0000 * bytes[7]
        }),
{
    reveal_strlit(".vector_table");
    reveal_strlit(".debug_frame");
    assert(".vector_table"@.len() != ".debug_frame"@.len());
    lemma_every_section_is_fine(image.sections, text_index(image), candidates, 0, i);
    lemma_last_loaded(image.sections, candidates, ".vector_table"@, i);
    law_section_is_loaded_whole(image.sections[i], 0);
    law_section_is_loaded_whole(image.sections[i], 1);
}

/// The last section that has the name and is loaded is found.
proof fn lemma_last_loaded(
    sections: Seq<ElfSectionView>,
    candidates: Seq<Seq<char>>,
    name: Seq<char>,
    i: int,
)
    requires
        0 <= i < sections.len(),
        is_loaded(sections[i], candidates),
        named(sections[i], name),
        forall|j: int|
            i < j < sections.len() ==> (#[trigger] sections[j]).size == 0 || sections[j].name
                != NameView::Text(name),
    ensures
        last_loaded(sections, candidates, name) == Some(sections[i]),
    decreases sections.len(),
{
    if i < sections.len() - 1 {
        let last = sections[sections.len() - 1];
        assert(last.size == 0 || last.name != NameView::Text(name));
        lemma_last_loaded(sections.drop_last(), candidates, name, i);
    }
}

/// No section with the name that is loaded is found where there is none.
proof fn lemma_none_loaded(
    sections: Seq<ElfSectionView>,
    candidates: Seq<Seq<char>>,
    name: Seq<char>,
)
    requires
        forall|j: int|
            0 <= j < sections.len() ==> (#[trigger] sections[j]).size == 0 || sections[j].name
                != NameView::Text(name),
    ensures
        last_loaded(sections, candidates, name) is None,
    decreases sections.len(),
{
    if sections.len() > 0 {
        let last = sections[sections.len() - 1];
        assert(last.size == 0 || last.name != NameView::Text(name));
        lemma_none_loaded(sections.drop_last(), candidates, name);
    }
}

/// The `.data` of a program is the last section of that name that is not empty: all its bytes, at its
/// address where the program uses them, and at the physical address of the first segment to load
/// that starts there where they are loaded. Without such a section there is none.
pub proof fn law_data_is_loaded_to_its_segment(
    program: Program,
    image: ElfImageView,
    candidates: Seq<Seq<char>>,
    i: int,
    s: int,
)
    requires
        image_verdict(image, candidates) is Fine,
        program.is_of(image, candidates),
        candidates.contains(".data"@),
        0 <= i < image.sections.len(),
        image.sections[i].name == NameView::Text(".data"@),
        image.sections[i].size != 0,
        forall|j: int|
            i < j < image.sections.len() ==> (#[trigger] image.sections[j]).size == 0
                || image.sections[j].name != NameView::Text(".data"@),
        0 <= s < image.segments.len(),
        image.segments[s].load,
        image.segments[s].virtual_addr == image.sections[i].address,
        forall|t: int|
            0 <= t < s ==> !(#[trigger] image.segments[t]).load || image.segments[t].virtual_addr
                != image.sections[i].address,
    ensures
        program.dotdata is Some,
        ({
            let data = program.dotdata->Some_0;
            let bytes = image.sections[i].data->Some_0;
            &&& image.sections[i].data is Some
            &&& data.virt == image.sections[i].address
            &&& data.phys == image.segments[s].physical_addr
            &&& 4 * data.data.len() <= bytes.len() < 4 * data.data.len() + 4
            &&& forall|w: int|
                0 <= w < data.data.len() ==> #[trigger] data.data@[w] == le32(bytes, 4 * w)
        }),
{
    reveal_strlit(".data");
    reveal_strlit(".debug_frame");
    assert(".data"@.len() != ".debug_frame"@.len());
    lemma_every_section_is_fine(image.sections, text_index(image), candidates, 0, i);
    lemma_last_loaded(image.sections, candidates, ".data"@, i);
    let section = image.sections[i];
    law_section_is_loaded_whole(section, 0);
    lemma_first_segment(image, section.address as u32, 0, s);
    let data = program.dotdata->Some_0;
    assert(data@ == data_loaded(image, candidates)->Some_0);
    assert forall|w: int| 0 <= w < data.data.len() implies #[trigger] data.data@[w] == le32(
        section.data->Some_0,
        4 * w,
    ) by {
        law_section_is_loaded_whole(section, w);
    }
}

/// The first segment to load that starts at the address is found, unless an address before it is an
/// error.
proof fn lemma_first_segment(image: ElfImageView, virt: u32, from: int, s: int)
    requires
        0 <= from <= s < image.segments.len(),
        image.segments[s].load,
        image.segments[s].virtual_addr == virt,
        forall|t: int|
            from <= t < s ==> !(#[trigger] image.segments[t]).load || image.segments[t].virtual_addr
                != virt,
    ensures
        data_address(image, virt, from) matches Address::At(phys) ==> phys
            == image.segments[s].physical_addr,
        data_address(image, virt, from) is At <==> image.segments[s].physical_addr <= 0xffff_ffff
            && forall|t: int|
            from <= t <= s ==> (#[trigger] image.segments[t]).load ==> image.segments[t].virtual_addr
                <= 0xffff_ffff,
        data_address(image, virt, from) !is At ==> data_address(image, virt, from)
            == Address::Rejected(LoadErrorView::OutOfRange),
    decreases s - from,
{
    let segment = image.segments[from];
    if from < s {
        if !segment.load || segment.virtual_addr <= u32::MAX {
            lemma_first_segment(image, virt, from + 1, s);
        }
    }
}

/// `.data` is loaded to the first segment to load that starts at its address, and an address above those
/// of the target, in that segment or before it, is an error.
pub proof fn law_first_segment_gives_the_address(image: ElfImageView, virt: u32, s: int)
    requires
        0 <= s < image.segments.len(),
        image.segments[s].load,
        image.segments[s].virtual_addr == virt,
        forall|t: int|
            0 <= t < s ==> !(#[trigger] image.segments[t]).load || image.segments[t].virtual_addr
                != virt,
    ensures
        if image.segments[s].physical_addr <= 0xffff_ffff && forall|t: int|
            0 <= t <= s ==> (#[trigger] image.segments[t]).load ==> image.segments[t].virtual_addr
                <= 0xffff_ffff {
            data_address(image, virt, 0) matches Address::At(phys) && phys
                == image.segments[s].physical_addr
        } else {
            data_address(image, virt, 0) == Address::Rejected(LoadErrorView::OutOfRange)
        },
{
    lemma_first_segment(image, virt, 0, s);
}

/// Where no segment to load starts at the address of `.data`, that is an error, if all the segments can
/// be read.
pub proof fn law_data_without_a_segment_is_an_error(image: ElfImageView, virt: u32, from: int)
    requires
        0 <= from <= image.segments.len(),
        forall|t: int|
            from <= t < image.segments.len() ==> (#[trigger] image.segments[t]).load ==> {
                &&& image.segments[t].virtual_addr != virt
                &&& image.segments[t].virtual_addr <= 0xffff_ffff
            },
    ensures
        image.segments_complete ==> data_address(image, virt, from) == Address::Rejected(
            LoadErrorView::NoDataAddress,
        ),
        !image.segments_complete ==> data_address(image, virt, from) is Unusable,
    decreases image.segments.len() - from,
{
    if from < image.segments.len() {
        let segment = image.segments[from];
        law_data_without_a_segment_is_an_error(image, virt, from + 1);
    }
}

/// A program without a section called `.data`, or with empty ones only, has no such data.
pub proof fn law_program_without_data(
    program: Program,
    image: ElfImageView,
    candidates: Seq<Seq<char>>,
)
    requires
        program.is_of(image, candidates),
        forall|j: int|
            0 <= j < image.sections.len() ==> (#[trigger] image.sections[j]).size == 0
                || image.sections[j].name != NameView::Text(".data"@),
    ensures
        program.dotdata is None,
{
    lemma_none_loaded(image.sections, candidates, ".data"@);
}

/// The call frame information of a program is the whole of the last section called `.debug_frame`, and
/// there is none without such a section.
pub proof fn law_call_frame_information_is_the_whole_section(
    program: Program,
    image: ElfImageView,
    candidates: Seq<Seq<char>>,
    i: int,
)
    requires
        program.is_of(image, candidates),
        -1 <= i < image.sections.len(),
        i >= 0 ==> image.sections[i].name == NameView::Text(".debug_frame"@),
        forall|j: int|
            i < j < image.sections.len() ==> (#[trigger] image.sections[j]).name != NameView::Text(
                ".debug_frame"@,
            ),
    ensures
        i < 0 ==> program.debug_frame is None,
        i >= 0 ==> (match program.debug_frame {
            Some(bytes) => image.sections[i].data == Some(bytes@),
            None => image.sections[i].data is None,
        }),
{
    lemma_last_named(image.sections, ".debug_frame"@, i);
}

/// The last section that has the name is found, if there is one.
proof fn lemma_last_named(sections: Seq<ElfSectionView>, name: Seq<char>, i: int)
    requires
        -1 <= i < sections.len(),
        i >= 0 ==> sections[i].name == NameView::Text(name),
        forall|j: int|
            i < j < sections.len() ==> (#[trigger] sections[j]).name != NameView::Text(name),
    ensures
        last_named(sections, name) == if i < 0 {
            None
        } else {
            Some(sections[i])
        },
    decreases sections.len(),
{
    if i < sections.len() - 1 {
        assert(sections[sections.len() - 1].name != NameView::Text(name));
        lemma_last_named(sections.drop_last(), name, i);
    }
}

/// The functions of a program, and its RTT control block, are those of the last section called
/// `.symtab`, the code being in the first section called `.text`.
pub proof fn law_functions_are_those_of_the_symbol_table(
    program: Program,
    image: ElfImageView,
    candidates: Seq<Seq<char>>,
    i: int,
    symbols: Seq<SymbolView>,
    text: int,
)
    requires
        program.is_of(image, candidates),
        0 <= i < image.sections.len(),
        image.sections[i].name == NameView::Text(".symtab"@),
        image.sections[i].symbols == SymbolsView::Table(symbols),
        forall|j: int|
            i < j < image.sections.len() ==> (#[trigger] image.sections[j]).name != NameView::Text(
                ".symtab"@,
            ),
        0 <= text < image.sections.len(),
        text <= 0xffff,
        image.sections[text].name == NameView::Text(".text"@),
        forall|j: int|
            0 <= j < text ==> (#[trigger] image.sections[j]).name != NameView::Text(".text"@)
                && image.sections[j].name !is Unreadable,
    ensures
        program.range_names is Some,
        sorting_of(
            range_names_view(program.range_names->Some_0@),
            code_ranges(symbols, Some(text as u16)),
        ),
        program.rtt_addr == rtt_address(symbols),
{
    lemma_last_named(image.sections, ".symtab"@, i);
    law_code_is_in_the_first_text_section(image, 0, text);
}

/// Code is in the first section called `.text`.
pub proof fn law_code_is_in_the_first_text_section(image: ElfImageView, from: int, text: int)
    requires
        0 <= from <= text < image.sections.len(),
        text <= 0xffff,
        image.sections[text].name == NameView::Text(".text"@),
        forall|j: int|
            from <= j < text ==> (#[trigger] image.sections[j]).name != NameView::Text(".text"@)
                && image.sections[j].name !is Unreadable,
    ensures
        find_text(image, from) == Search::At(text),
        from == 0 ==> text_index(image) == Some(text as u16),
    decreases text - from,
{
    if from < text {
        let section = image.sections[from];
        law_code_is_in_the_first_text_section(image, from + 1, text);
    }
}

/// Without a section called `.text` there is no code, if all the sections and their names can be read.
pub proof fn law_no_text_section_no_code(image: ElfImageView, from: int)
    requires
        0 <= from <= image.sections.len() <= 0x1_0000,
        image.complete,
        forall|j: int|
            from <= j < image.sections.len() ==> (#[trigger] image.sections[j]).name
                != NameView::Text(".text"@) && image.sections[j].name !is Unreadable,
    ensures
        find_text(image, from) is Missing,
        from == 0 ==> text_index(image) is None,
    decreases image.sections.len() - from,
{
    if from < image.sections.len() {
        let section = image.sections[from];
        law_no_text_section_no_code(image, from + 1);
    }
}

/// Which sections can be used, and which are errors. A section without a readable name cannot be used,
/// nor call frame information without bytes, nor a symbol table with a symbol that cannot be used. A
/// section that is to be loaded has to start and end at multiples of four and within the target, has
/// to have bytes, and as a vector table at least two words of them.
pub proof fn law_verdict_on_a_section(
    section: ElfSectionView,
    text: Option<Shndx>,
    candidates: Seq<Seq<char>>,
)
    ensures
        ({
            let verdict = section_verdict(section, text, candidates);
            match section.name {
                NameView::Unreadable => verdict is Unusable,
                NameView::Missing => verdict is Fine,
                NameView::Text(name) => {
                    let frames = name == ".debug_frame"@;
                    let readable = (frames ==> section.data is Some) && (name == ".symtab"@
                        ==> match section.symbols {
                        SymbolsView::Unreadable => false,
                        SymbolsView::Other => true,
                        SymbolsView::Table(symbols) => all_usable(symbols, text),
                    });
                    let wanted = candidates.contains(name) && section.size != 0 && !frames;
                    if !readable {
                        verdict is Unusable
                    } else if !wanted {
                        verdict is Fine
                    } else if section.size as int % 4 != 0 || section.address as int % 4 != 0 {
                        verdict == Verdict::Rejected(LoadErrorView::Unaligned(name))
                    } else if section.address > 0xffff_ffff {
                        verdict == Verdict::Rejected(LoadErrorView::OutOfRange)
                    } else {
                        verdict is Fine <==> section.data is Some && (name == ".vector_table"@
                            ==> section.data->Some_0.len() >= 8)
                    }
                },
            }
        }),
{
}

/// The first section that is not fine decides, and where all are fine, none does.
pub proof fn law_first_bad_section_decides(
    sections: Seq<ElfSectionView>,
    text: Option<Shndx>,
    candidates: Seq<Seq<char>>,
    from: int,
    bad: int,
)
    requires
        0 <= from <= bad <= sections.len(),
        forall|j: int|
            from <= j < bad ==> section_verdict(#[trigger] sections[j], text, candidates) is Fine,
        bad < sections.len() ==> section_verdict(sections[bad], text, candidates) !is Fine,
    ensures
        sections_verdict(sections, text, candidates, from) == if bad < sections.len() {
            section_verdict(sections[bad], text, candidates)
        } else {
            Verdict::Fine
        },
    decreases bad - from,
{
    if from < bad {
        let section = sections[from];
        law_first_bad_section_decides(sections, text, candidates, from + 1, bad);
    }
}

/// A program is loaded from every file whose sections can all be used and that has a vector table, with
/// or without `.data`: the latter as long as one of its segments says where to.
pub proof fn law_good_files_are_loaded(image: ElfImageView, candidates: Seq<Seq<char>>, v: int)
    requires
        image.complete,
        find_text(image, 0) !is Unusable,
        forall|j: int|
            0 <= j < image.sections.len() ==> section_verdict(
                #[trigger] image.sections[j],
                text_index(image),
                candidates,
            ) is Fine,
        candidates.contains(".vector_table"@),
        0 <= v < image.sections.len(),
        image.sections[v].name == NameView::Text(".vector_table"@),
        image.sections[v].size != 0,
        forall|j: int|
            0 <= j < image.sections.len() && (#[trigger] image.sections[j]).name == NameView::Text(
                ".data"@,
            ) && image.sections[j].size != 0 ==> data_address(
                image,
                image.sections[j].address as u32,
                0,
            ) is At,
    ensures
        image_verdict(image, candidates) is Fine,
{
    reveal_strlit(".vector_table");
    reveal_strlit(".debug_frame");
    assert(".vector_table"@.len() != ".debug_frame"@.len());
    law_first_bad_section_decides(
        image.sections,
        text_index(image),
        candidates,
        0,
        image.sections.len() as int,
    );
    lemma_some_loaded(image.sections, candidates, ".vector_table"@, v);
    if last_loaded(image.sections, candidates, ".data"@) is Some {
        let j = lemma_last_loaded_is_section(image.sections, candidates, ".data"@);
        assert(image.sections[j].name == NameView::Text(".data"@));
    }
}

/// Where a section has the name and is loaded, one is found.
proof fn lemma_some_loaded(
    sections: Seq<ElfSectionView>,
    candidates: Seq<Seq<char>>,
    name: Seq<char>,
    v: int,
)
    requires
        0 <= v < sections.len(),
        is_loaded(sections[v], candidates),
        named(sections[v], name),
    ensures
        last_loaded(sections, candidates, name) is Some,
    decreases sections.len(),
{
    if v < sections.len() - 1 {
        lemma_some_loaded(sections.drop_last(), candidates, name, v);
    }
}

/// A file without a vector table is an error, where it has no other.
pub proof fn law_missing_vector_table_is_an_error(image: ElfImageView, candidates: Seq<Seq<char>>)
    requires
        image.complete,
        find_text(image, 0) !is Unusable,
        sections_verdict(image.sections, text_index(image), candidates, 0) is Fine,
        forall|j: int|
            0 <= j < image.sections.len() ==> (#[trigger] image.sections[j]).size == 0 || (
            image.sections[j].name != NameView::Text(".vector_table"@) && image.sections[j].name
                != NameView::Text(".data"@)),
    ensures
        image_verdict(image, candidates) == Verdict::Rejected(LoadErrorView::NoVectorTable),
{
    assert forall|j: int| 0 <= j < image.sections.len() implies (#[trigger] image.sections[j]).size
        == 0 || image.sections[j].name != NameView::Text(".vector_table"@) by {}
    lemma_none_loaded(image.sections, candidates, ".vector_table"@);
    lemma_none_loaded(image.sections, candidates, ".data"@);
}

/// An error of a section is the error of the file, and a `.data` without an address is one too.
pub proof fn law_errors_of_sections_are_errors_of_the_file(
    image: ElfImageView,
    candidates: Seq<Seq<char>>,
    error: LoadErrorView,
)
    requires
        find_text(image, 0) !is Unusable,
    ensures
        sections_verdict(image.sections, text_index(image), candidates, 0) == Verdict::Rejected(error)
            ==> image_verdict(image, candidates) == Verdict::Rejected(error),
        sections_verdict(image.sections, text_index(image), candidates, 0) is Unusable
            ==> image_verdict(image, candidates) is Unusable,
        image_verdict(image, candidates) is Fine ==> image.complete,
        ({
            let data = last_loaded(image.sections, candidates, ".data"@);
            &&& sections_verdict(image.sections, text_index(image), candidates, 0) is Fine
            &&& image.complete
            &&& data is Some
            &&& data_address(image, data->Some_0.address as u32, 0) == Address::Rejected(error)
        }) ==> image_verdict(image, candidates) == Verdict::Rejected(error),
{
}

/// The sections of cortex-m-rt that are not empty are loaded: the vector table, the code, the constants
/// and the data.
pub proof fn law_sections_of_the_runtime_are_loaded(section: ElfSectionView)
    requires
        named(section, ".vector_table"@) || named(section, ".text"@) || named(section, ".rodata"@)
            || named(section, ".data"@),
    ensures
        is_loaded(section, candidate_names()) <==> section.size != 0,
        candidate_names().len() == 4,
{
    reveal_strlit(".vector_table");
    reveal_strlit(".text");
    reveal_strlit(".rodata");
    reveal_strlit(".data");
    reveal_strlit(".debug_frame");
    let names = candidate_names();
    assert(names[0] == ".vector_table"@ && names[1] == ".text"@ && names[2] == ".rodata"@ && names[3]
        == ".data"@);
    assert(".debug_frame"@.len() == 12);
    assert(section.name->Text_0.len() != 12);
}

/// What is said of a section that is not aligned tells its name, and what is said of a file that is no
/// ELF file is the reason that was given.
pub proof fn law_alignment_error_tells_the_section(name: Seq<char>)
    ensures
        ({
            let text = LoadErrorView::Unaligned(name).text();
            let end = 9 + name.len() as int;
            &&& text.subrange(0, 9) == "section `"@
            &&& text.subrange(9, end) == name
            &&& text.subrange(end, text.len() as int) == "` is not 4-byte aligned"@
        }),
        LoadErrorView::NotElf(name).text() == name,
{
    reveal_strlit("section `");
    let text = LoadErrorView::Unaligned(name).text();
    let end = 9 + name.len() as int;
    assert(text.subrange(0, 9) =~= "section `"@);
    assert(text.subrange(9, end) =~= name);
    assert(text.subrange(end, text.len() as int) =~= "` is not 4-byte aligned"@);
}

/// A file that is too short for its header cannot be used, one that is no ELF file is rejected for the
/// reason of that, and any other one is judged by what it holds.
pub proof fn law_verdict_on_a_file(bytes: Seq<u8>)
    ensures
        !header_readable(bytes) ==> file_verdict(bytes) is Unusable,
        header_readable(bytes) ==> match rejection(bytes) {
            Some(why) => file_verdict(bytes) == Verdict::Rejected(LoadErrorView::NotElf(why)),
            None => file_verdict(bytes) == image_verdict(
                image_of(bytes),
                seq![".vector_table"@, ".text"@, ".rodata"@, ".data"@],
            ),
        },
{
}

/// Words are made of four bytes each, the first being the least significant, and a rest of less than
/// four bytes is dropped.
pub proof fn law_words_are_made_of_four_bytes(data: Seq<u8>, k: int)
    ensures
        words_of(data).len() == data.len() as int / 4,
        0 <= k && 4 * k + 4 <= data.len() ==> words_of(data)[k] as int == data[4 * k] + 0x100 * data[4
            * k + 1] + 0x1_0000 * data[4 * k + 2] + 0x100_0000 * data[4 * k + 3],
{
}

/// A file cannot be used where the search for the code meets something unreadable, nor where a section
/// header or the header of a segment that `.data` needs cannot be read.
pub proof fn law_unreadable_files_cannot_be_used(image: ElfImageView, candidates: Seq<Seq<char>>)
    ensures
        find_text(image, 0) is Unusable ==> image_verdict(image, candidates) is Unusable,
        sections_verdict(image.sections, text_index(image), candidates, 0) is Fine
            && !image.complete ==> image_verdict(image, candidates) is Unusable,
        sections_verdict(image.sections, text_index(image), candidates, 0) is Fine && (last_loaded(
            image.sections,
            candidates,
            ".data"@,
        ) matches Some(data) && data_address(image, data.address as u32, 0) is Unusable)
            ==> image_verdict(image, candidates) is Unusable,
{
}

/// A section without a readable name stops the search for the code, if no section called `.text` comes
/// before it; and so does the end of the sections where they are not complete.
pub proof fn law_unreadable_name_stops_the_search_for_code(
    image: ElfImageView,
    from: int,
    bad: int,
)
    requires
        0 <= from <= bad <= image.sections.len(),
        bad < image.sections.len() ==> image.sections[bad].name is Unreadable,
        bad == image.sections.len() ==> !image.complete,
        forall|j: int|
            from <= j < bad ==> (#[trigger] image.sections[j]).name != NameView::Text(".text"@),
    ensures
        find_text(image, from) is Unusable,
    decreases bad - from,
{
    if from < bad {
        let section = image.sections[from];
        if section.name !is Unreadable && from <= u16::MAX {
            law_unreadable_name_stops_the_search_for_code(image, from + 1, bad);
        }
    }
}

/// A program whose last section called `.symtab` holds no symbols has no functions, and one without
/// such a section does not know of any.
pub proof fn law_program_without_symbols(
    program: Program,
    image: ElfImageView,
    candidates: Seq<Seq<char>>,
    i: int,
)
    requires
        program.is_of(image, candidates),
        -1 <= i < image.sections.len(),
        i >= 0 ==> image.sections[i].name == NameView::Text(".symtab"@) && image.sections[i].symbols
            is Other,
        forall|j: int|
            i < j < image.sections.len() ==> (#[trigger] image.sections[j]).name != NameView::Text(
                ".symtab"@,
            ),
    ensures
        program.rtt_addr is None,
        i < 0 ==> program.range_names is None,
        i >= 0 ==> program.range_names is Some && program.range_names->Some_0@.len() == 0,
{
    lemma_last_named(image.sections, ".symtab"@, i);
    if i >= 0 {
        let view = range_names_view(program.range_names->Some_0@);
        let none = code_ranges(seq![], text_index(image));
        view.to_multiset_ensures();
        none.to_multiset_ensures();
        assert(view.len() == none.len());
    }
}

} // verus!

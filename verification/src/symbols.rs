//! The symbol table: which function lives at which addresses.
use core::ops::Range;
use vstd::prelude::*;
use vstd::string::*;
use vstd::utf8::*;

use crate::text::same_text;

verus! {

/// Index of a section in the section header table.
pub type Shndx = u16;

/// Map from PC ranges to demangled Rust names, in the order of the ranges' starts.
pub type RangeNames = Vec<(Range<u32>, String)>;

/// What the file has at a place where a name is expected.
#[derive(Debug)]
pub enum Name {
    /// A place that cannot be read: it lies outside the file, no zero byte ends the text, or the
    /// text is not UTF-8.
    Unreadable,
    /// Nothing: the item has no name.
    Missing,
    /// The name.
    Text(String),
}

/// The model of [`Name`].
pub enum NameView {
    Unreadable,
    Missing,
    Text(Seq<char>),
}

impl View for Name {
    type V = NameView;

    open spec fn view(&self) -> NameView {
        match self {
            Name::Unreadable => NameView::Unreadable,
            Name::Missing => NameView::Missing,
            Name::Text(s) => NameView::Text(s@),
        }
    }
}

/// An entry of a symbol table.
#[derive(Debug)]
pub struct Symbol {
    /// Name of the symbol.
    pub name: Name,
    /// Address of the symbol, with the thumb bit where it is a function.
    pub value: u64,
    /// Number of bytes at that address that belong to the symbol.
    pub size: u64,
    /// The section that the symbol is defined in.
    pub shndx: Shndx,
}

/// The model of [`Symbol`].
pub struct SymbolView {
    pub name: NameView,
    pub value: u64,
    pub size: u64,
    pub shndx: Shndx,
}

impl View for Symbol {
    type V = SymbolView;

    open spec fn view(&self) -> SymbolView {
        SymbolView { name: self.name@, value: self.value, size: self.size, shndx: self.shndx }
    }
}

/// The model of an entry of [`RangeNames`].
pub struct RangeNameView {
    pub start: u32,
    pub end: u32,
    pub name: Seq<char>,
}

impl RangeNameView {
    /// Whether the address is one of the range's.
    pub open spec fn contains(self, pc: u32) -> bool {
        self.start <= pc < self.end
    }
}

/// The model of an entry of [`RangeNames`].
pub open spec fn range_name_view(entry: (Range<u32>, String)) -> RangeNameView {
    RangeNameView { start: entry.0.start, end: entry.0.end, name: entry.1@ }
}

/// The model of [`RangeNames`].
pub open spec fn range_names_view(names: Seq<(Range<u32>, String)>) -> Seq<RangeNameView> {
    names.map_values(|entry: (Range<u32>, String)| range_name_view(entry))
}

/// Whether the ranges come in the order of their starts.
pub open spec fn sorted_by_start(names: Seq<RangeNameView>) -> bool {
    forall|i: int, j: int| 0 <= i <= j < names.len() ==> names[i].start <= names[j].start
}

/// Whether `names` holds the entries of `entries`, each as often, in the order of their starts.
pub open spec fn sorting_of(names: Seq<RangeNameView>, entries: Seq<RangeNameView>) -> bool {
    &&& sorted_by_start(names)
    &&& names.to_multiset() == entries.to_multiset()
}

// -------------------------------------------------------------------------------------------
// Names of functions.

/// The text that `rustc_demangle::demangle` displays for a symbol's name.
pub uninterp spec fn demangled(symbol: Seq<char>) -> Seq<char>;

/// `rustc_demangle::demangle`, displayed: the readable form of a mangled Rust name, and any other
/// name as it is. It is a function of the name alone.
#[verifier::external_body]
fn demangle(symbol: &str) -> (name: String)
    ensures
        name@ == demangled(symbol@),
{
    rustc_demangle::demangle(symbol).to_string()
}

/// Number of bytes in a hash at the end of a name (e.g. `::hd881d91ced85c2b0`).
pub const HASH_LEN: usize = 19;

/// Where in the encoded name a hash would start.
pub open spec fn hash_position(name: Seq<char>) -> int {
    encode_utf8(name).len() - HASH_LEN
}

/// Whether the name can be cut where a hash would start: it is too short for one, or a character
/// starts there.
pub open spec fn cuttable(name: Seq<char>) -> bool {
    hash_position(name) >= 0 ==> is_char_boundary(encode_utf8(name), hash_position(name))
}

/// Whether a hash ends the name: its last nineteen bytes start with `::h`.
pub open spec fn ends_with_hash(name: Seq<char>) -> bool {
    let bytes = encode_utf8(name);
    let at = hash_position(name);
    at >= 0 && bytes[at] == 0x3a && bytes[at + 1] == 0x3a && bytes[at + 2] == 0x68
}

/// The name without the hash that ends it, if one does.
pub open spec fn without_hash(name: Seq<char>) -> Seq<char> {
    if ends_with_hash(name) {
        decode_utf8(encode_utf8(name).subrange(0, hash_position(name)))
    } else {
        name
    }
}

/// Whether [`strip_hash`] accepts the name.
pub fn is_cuttable(name: &str) -> (ok: bool)
    ensures
        ok == cuttable(name@),
{
    let len: usize = name.as_bytes().len();
    len < HASH_LEN || name.is_char_boundary(len - HASH_LEN)
}

/// Strips the hash (e.g. `::hd881d91ced85c2b0`) from the end of a name.
pub fn strip_hash(name: String) -> (stripped: String)
    requires
        cuttable(name@),
    ensures
        stripped@ == without_hash(name@),
{
    let text: &str = name.as_str();
    let bytes: &[u8] = text.as_bytes();
    let len: usize = bytes.len();
    if len >= HASH_LEN {
        let at: usize = len - HASH_LEN;
        if bytes[at] == 0x3a && bytes[at + 1] == 0x3a && bytes[at + 2] == 0x68 {
            let (head, _) = text.split_at(at);
            proof {
                encode_utf8_decode_utf8(head@);
            }
            return head.to_owned();
        }
    }
    name
}

// -------------------------------------------------------------------------------------------
// Address ranges of functions.

/// The low half of a symbol's value or size.
pub open spec fn low_half(n: u64) -> int {
    n as int % 0x1_0000_0000
}

/// Where the symbol starts, the thumb bit being cleared.
pub open spec fn symbol_start(symbol: SymbolView) -> int {
    low_half(symbol.value) - low_half(symbol.value) % 2
}

/// Where the symbol ends.
pub open spec fn symbol_end(symbol: SymbolView) -> int {
    symbol_start(symbol) + low_half(symbol.size)
}

/// Whether the symbol names code: it is defined in the section `text` and is not empty.
pub open spec fn names_code(symbol: SymbolView, text: Option<Shndx>) -> bool {
    symbol.name is Text && text == Some(symbol.shndx) && symbol.size != 0
}

/// Whether the entry can be used: its name can be read, and where it names code, the range of
/// addresses ends below 2^32 and the demangled name can be cut.
pub open spec fn usable(symbol: SymbolView, text: Option<Shndx>) -> bool {
    &&& symbol.name !is Unreadable
    &&& names_code(symbol, text) ==> symbol_end(symbol) <= u32::MAX && cuttable(
        demangled(symbol.name->Text_0),
    )
}

/// Whether every entry can be used.
pub open spec fn all_usable(symbols: Seq<SymbolView>, text: Option<Shndx>) -> bool {
    forall|i: int| 0 <= i < symbols.len() ==> #[trigger] usable(symbols[i], text)
}

/// The range of addresses of a symbol that names code, with the demangled name.
pub open spec fn range_name(symbol: SymbolView) -> RangeNameView {
    RangeNameView {
        start: symbol_start(symbol) as u32,
        end: symbol_end(symbol) as u32,
        name: without_hash(demangled(symbol.name->Text_0)),
    }
}

/// The ranges of the symbols that name code, in the order of the table.
pub open spec fn code_ranges(symbols: Seq<SymbolView>, text: Option<Shndx>) -> Seq<RangeNameView>
    decreases symbols.len(),
{
    if symbols.len() == 0 {
        seq![]
    } else {
        let before = code_ranges(symbols.drop_last(), text);
        if names_code(symbols.last(), text) {
            before.push(range_name(symbols.last()))
        } else {
            before
        }
    }
}

/// The name of the symbol that the RTT control block lives at.
pub open spec fn rtt_symbol() -> Seq<char> {
    "_SEGGER_RTT"@
}

/// The address of the last symbol with the name of the RTT control block.
pub open spec fn rtt_address(symbols: Seq<SymbolView>) -> Option<u32>
    decreases symbols.len(),
{
    if symbols.len() == 0 {
        None
    } else if symbols.last().name == NameView::Text(rtt_symbol()) {
        Some(low_half(symbols.last().value) as u32)
    } else {
        rtt_address(symbols.drop_last())
    }
}

/// The models of the entries of a symbol table.
pub open spec fn symbols_view(symbols: Seq<Symbol>) -> Seq<SymbolView> {
    symbols.map_values(|symbol: Symbol| symbol@)
}

/// `sort_unstable_by_key` on the start of the range: the same entries, each as often, in the order
/// of their starts. Which of two entries with one start comes first is left open.
#[verifier::external_body]
fn sort_by_start(names: &mut RangeNames)
    ensures
        sorting_of(range_names_view(final(names)@), range_names_view(old(names)@)),
{
    names.sort_unstable_by_key(|entry| entry.0.start)
}

/// The low half of the number.
fn truncated(n: u64) -> (low: u32)
    ensures
        low == low_half(n),
{
    assert(n as u32 == n % 0x1_0000_0000) by (bit_vector);
    #[verifier::truncate]
    (n as u32)
}

/// The address with its lowest bit cleared.
fn without_thumb_bit(address: u32) -> (even: u32)
    ensures
        even == address - address % 2,
{
    assert(address & !1u32 == address - address % 2) by (bit_vector);
    address & !1
}

/// The range of addresses of a symbol that names code, `name` being its demangled name.
pub fn code_range(symbol: &Symbol, name: String) -> (entry: (Range<u32>, String))
    requires
        symbol_end(symbol@) <= u32::MAX,
        cuttable(name@),
    ensures
        entry.0.start == symbol_start(symbol@),
        entry.0.end == symbol_end(symbol@),
        entry.1@ == without_hash(name@),
{
    // clear the thumb bit
    let start: u32 = without_thumb_bit(truncated(symbol.value));
    let end: u32 = start + truncated(symbol.size);
    (start..end, strip_hash(name))
}

/// Whether every entry can be used.
pub fn check_symbols(symbols: &Vec<Symbol>, text: Option<Shndx>) -> (ok: bool)
    ensures
        ok == all_usable(symbols_view(symbols@), text),
{
    let ghost view = symbols_view(symbols@);
    let mut i: usize = 0;
    while i < symbols.len()
        invariant
            i <= symbols.len(),
            view == symbols_view(symbols@),
            forall|j: int| 0 <= j < i ==> #[trigger] usable(view[j], text),
        decreases symbols.len() - i,
    {
        let symbol: &Symbol = &symbols[i];
        assert(view[i as int] == symbol@);
        match &symbol.name {
            Name::Unreadable => {
                assert(!usable(view[i as int], text));
                return false;
            },
            Name::Missing => {},
            Name::Text(name) => {
                if text == Some(symbol.shndx) && symbol.size != 0 {
                    let start: u32 = without_thumb_bit(truncated(symbol.value));
                    let ends_below = start.checked_add(truncated(symbol.size)).is_some();
                    if !ends_below || !is_cuttable(demangle(name.as_str()).as_str()) {
                        assert(!usable(view[i as int], text));
                        return false;
                    }
                }
            },
        }
        i += 1;
    }
    true
}

/// The ranges of addresses that the symbols of the section `text` cover, in the order of their
/// starts, and the address of the RTT control block if the table has one.
pub fn range_names_from(symbols: &Vec<Symbol>, text: Option<Shndx>) -> (r: (
    RangeNames,
    Option<u32>,
))
    requires
        all_usable(symbols_view(symbols@), text),
    ensures
        sorting_of(range_names_view(r.0@), code_ranges(symbols_view(symbols@), text)),
        r.1 == rtt_address(symbols_view(symbols@)),
{
    let ghost view = symbols_view(symbols@);
    let mut range_names: RangeNames = Vec::new();
    let mut rtt: Option<u32> = None;
    let mut i: usize = 0;
    assert(range_names_view(range_names@) =~= code_ranges(view.take(0), text));
    while i < symbols.len()
        invariant
            i <= symbols.len(),
            view == symbols_view(symbols@),
            all_usable(view, text),
            range_names_view(range_names@) == code_ranges(view.take(i as int), text),
            rtt == rtt_address(view.take(i as int)),
        decreases symbols.len() - i,
    {
        let symbol: &Symbol = &symbols[i];
        assert(view[i as int] == symbol@);
        assert(usable(view[i as int], text));
        assert(view.take(i + 1).drop_last() =~= view.take(i as int));
        let ghost before = range_names@;
        if let Name::Text(name) = &symbol.name {
            if same_text(name.as_str(), "_SEGGER_RTT") {
                rtt = Some(truncated(symbol.value));
            }
            if text == Some(symbol.shndx) && symbol.size != 0 {
                range_names.push(code_range(symbol, demangle(name.as_str())));
                assert(range_names_view(range_names@) =~= range_names_view(before).push(
                    range_name(symbol@),
                ));
            }
        }
        i += 1;
    }
    assert(view.take(symbols.len() as int) =~= view);
    sort_by_start(&mut range_names);
    (range_names, rtt)
}

/// What [`range_names_from`] gives, or `None` where an entry cannot be used.
pub fn try_range_names_from(symbols: &Vec<Symbol>, text: Option<Shndx>) -> (r: Option<(
    RangeNames,
    Option<u32>,
)>)
    ensures
        r is Some <==> all_usable(symbols_view(symbols@), text),
        r matches Some(found) ==> {
            &&& sorting_of(range_names_view(found.0@), code_ranges(symbols_view(symbols@), text))
            &&& found.1 == rtt_address(symbols_view(symbols@))
        },
{
    if check_symbols(symbols, text) {
        Some(range_names_from(symbols, text))
    } else {
        None
    }
}

// -------------------------------------------------------------------------------------------
// Looking a function up.

/// The last of the ranges that starts at or below the address. The ranges come in the order of
/// their starts.
pub open spec fn last_at_or_below(names: Seq<RangeNameView>, pc: u32) -> Option<int>
    decreases names.len(),
{
    if names.len() == 0 {
        None
    } else if names.last().start <= pc {
        Some(names.len() - 1)
    } else {
        last_at_or_below(names.drop_last(), pc)
    }
}

/// The range that the address is looked up to: the last one that starts at or below it, if it
/// contains the address.
pub open spec fn range_at(names: Seq<RangeNameView>, pc: u32) -> Option<int> {
    match last_at_or_below(names, pc) {
        Some(i) => if names[i].contains(pc) {
            Some(i)
        } else {
            None
        },
        None => None,
    }
}

/// What is printed for an address that no function is known for.
pub open spec fn unknown_name() -> Seq<char> {
    "<unknown>"@
}

/// The name of the function at the address.
pub open spec fn name_at(names: Seq<RangeNameView>, pc: u32) -> Seq<char> {
    match range_at(names, pc) {
        Some(i) => names[i].name,
        None => unknown_name(),
    }
}

/// In ranges that come in the order of their starts, all up to the found one start at or below the
/// address, and all after it start above.
proof fn lemma_last_at_or_below(names: Seq<RangeNameView>, pc: u32, i: int)
    requires
        0 <= i < names.len(),
        names[i].start <= pc,
        forall|j: int| i < j < names.len() ==> pc < #[trigger] names[j].start,
    ensures
        last_at_or_below(names, pc) == Some(i),
    decreases names.len(),
{
    if i < names.len() - 1 {
        assert(pc < names[names.len() - 1].start);
        lemma_last_at_or_below(names.drop_last(), pc, i);
    }
}

/// Where every range starts above the address, none is found.
proof fn lemma_none_at_or_below(names: Seq<RangeNameView>, pc: u32)
    requires
        forall|j: int| 0 <= j < names.len() ==> pc < #[trigger] names[j].start,
    ensures
        last_at_or_below(names, pc) is None,
    decreases names.len(),
{
    if names.len() > 0 {
        assert(pc < names[names.len() - 1].start);
        lemma_none_at_or_below(names.drop_last(), pc);
    }
}

/// A found range is one of the ranges.
proof fn lemma_last_at_or_below_is_index(names: Seq<RangeNameView>, pc: u32)
    ensures
        last_at_or_below(names, pc) matches Some(i) ==> 0 <= i < names.len(),
    decreases names.len(),
{
    if names.len() > 0 {
        lemma_last_at_or_below_is_index(names.drop_last(), pc);
    }
}

/// The index of the range that the address is looked up to.
pub fn find_range(names: &RangeNames, pc: u32) -> (found: Option<usize>)
    requires
        sorted_by_start(range_names_view(names@)),
    ensures
        match found {
            Some(i) => range_at(range_names_view(names@), pc) == Some(i as int),
            None => range_at(range_names_view(names@), pc) is None,
        },
{
    let ghost view = range_names_view(names@);
    let mut size: usize = names.len();
    if size == 0 {
        return None;
    }
    let mut base: usize = 0;
    while size > 1
        invariant
            1 <= size,
            base + size <= names.len(),
            view == range_names_view(names@),
            sorted_by_start(view),
            base > 0 ==> view[base as int].start <= pc,
            forall|j: int| base + size <= j < names.len() ==> pc < #[trigger] view[j].start,
        decreases size,
    {
        let half: usize = size / 2;
        let mid: usize = base + half;
        assert(view[mid as int] == range_name_view(names@[mid as int]));
        if names[mid].0.start <= pc {
            base = mid;
        } else {
            assert forall|j: int| base + (size - half) <= j < names.len() implies pc
                < #[trigger] view[j].start by {
                assert(view[mid as int].start <= view[j].start);
            }
        }
        size -= half;
    }
    assert(view[base as int] == range_name_view(names@[base as int]));
    if names[base].0.start <= pc {
        proof {
            lemma_last_at_or_below(view, pc, base as int);
        }
        if pc < names[base].0.end {
            Some(base)
        } else {
            None
        }
    } else {
        proof {
            assert forall|j: int| 0 <= j < view.len() implies pc < #[trigger] view[j].start by {
                if j == 0 {
                    assert(base == 0);
                }
            }
            lemma_none_at_or_below(view, pc);
        }
        None
    }
}

/// The name of the function at the address, `<unknown>` where there is none.
pub fn function_name(names: &RangeNames, pc: u32) -> (name: &str)
    requires
        sorted_by_start(range_names_view(names@)),
    ensures
        name@ == name_at(range_names_view(names@), pc),
{
    proof {
        law_found_range_contains(range_names_view(names@), pc);
    }
    match find_range(names, pc) {
        Some(i) => names[i].1.as_str(),
        None => "<unknown>",
    }
}

// -------------------------------------------------------------------------------------------
// Laws.

/// Whether no range is empty and no two of them have an address in common.
pub open spec fn disjoint(names: Seq<RangeNameView>) -> bool {
    &&& forall|i: int| 0 <= i < names.len() ==> (#[trigger] names[i]).start < names[i].end
    &&& forall|i: int, j: int, pc: u32|
        0 <= i < names.len() && 0 <= j < names.len() && #[trigger] names[i].contains(pc)
            && #[trigger] names[j].contains(pc) ==> i == j
}

/// A found range contains the address.
pub proof fn law_found_range_contains(names: Seq<RangeNameView>, pc: u32)
    ensures
        range_at(names, pc) matches Some(i) ==> 0 <= i < names.len() && names[i].contains(pc),
    decreases names.len(),
{
    if names.len() > 0 && names.last().start > pc {
        law_found_range_contains(names.drop_last(), pc);
        assert(range_at(names, pc) == range_at(names.drop_last(), pc)) by {
            lemma_last_at_or_below_is_index(names.drop_last(), pc);
        }
    }
}

/// Among ranges that have no address in common, in the order of their starts, the lookup finds the
/// one that contains the address whenever there is one.
pub proof fn law_lookup_is_complete(names: Seq<RangeNameView>, pc: u32, i: int)
    requires
        sorted_by_start(names),
        disjoint(names),
        0 <= i < names.len(),
        names[i].contains(pc),
    ensures
        range_at(names, pc) == Some(i),
        name_at(names, pc) == names[i].name,
{
    assert forall|j: int| i < j < names.len() implies pc < #[trigger] names[j].start by {
        if names[j].start <= pc {
            // The start of that range would lie in both ranges.
            let start = names[j].start;
            assert(names[i].start <= start);
            assert(names[i].contains(start) && names[j].contains(start));
        }
    }
    lemma_last_at_or_below(names, pc, i);
}

/// Every range starts at an even address: the thumb bit is cleared.
pub proof fn law_ranges_start_at_even_addresses(
    symbols: Seq<SymbolView>,
    text: Option<Shndx>,
    k: int,
)
    requires
        all_usable(symbols, text),
        0 <= k < code_ranges(symbols, text).len(),
    ensures
        code_ranges(symbols, text)[k].start % 2 == 0,
    decreases symbols.len(),
{
    let before = code_ranges(symbols.drop_last(), text);
    assert(usable(symbols.last(), text)) by {
        assert(usable(symbols[symbols.len() - 1], text));
    }
    if k < before.len() {
        assert forall|i: int| 0 <= i < symbols.drop_last().len() implies #[trigger] usable(
            symbols.drop_last()[i],
            text,
        ) by {
            assert(usable(symbols[i], text));
        }
        law_ranges_start_at_even_addresses(symbols.drop_last(), text, k);
    }
}

/// Every symbol that names code has its range among the ranges, in any order of them.
pub proof fn law_every_code_symbol_has_its_range(
    symbols: Seq<SymbolView>,
    text: Option<Shndx>,
    names: Seq<RangeNameView>,
    i: int,
)
    requires
        0 <= i < symbols.len(),
        names_code(symbols[i], text),
        sorting_of(names, code_ranges(symbols, text)),
    ensures
        names.contains(range_name(symbols[i])),
{
    lemma_range_of_code_symbol(symbols, text, i);
    code_ranges(symbols, text).to_multiset_ensures();
    names.to_multiset_ensures();
    assert(names.to_multiset().count(range_name(symbols[i])) > 0);
}

/// Every symbol that names code has its range among the ranges in the order of the table.
proof fn lemma_range_of_code_symbol(symbols: Seq<SymbolView>, text: Option<Shndx>, i: int)
    requires
        0 <= i < symbols.len(),
        names_code(symbols[i], text),
    ensures
        code_ranges(symbols, text).contains(range_name(symbols[i])),
    decreases symbols.len(),
{
    let ranges = code_ranges(symbols, text);
    let before = code_ranges(symbols.drop_last(), text);
    if i == symbols.len() - 1 {
        assert(ranges[before.len() as int] == range_name(symbols[i]));
    } else {
        lemma_range_of_code_symbol(symbols.drop_last(), text, i);
        let k = choose|k: int| 0 <= k < before.len() && before[k] == range_name(symbols[i]);
        assert(ranges[k] == range_name(symbols[i]));
    }
}

/// A name is what is left of it after its hash is stripped, followed by the hash: of its nineteen
/// bytes none is lost, and no other is.
pub proof fn law_stripped_name_is_what_comes_before_the_hash(name: Seq<char>)
    requires
        cuttable(name),
    ensures
        without_hash(name).is_prefix_of(name),
        encode_utf8(without_hash(name)).len() == encode_utf8(name).len() - if ends_with_hash(name) {
            HASH_LEN as int
        } else {
            0
        },
{
    let bytes = encode_utf8(name);
    let at = hash_position(name);
    if ends_with_hash(name) {
        encode_utf8_valid_utf8(name);
        encode_utf8_decode_utf8(name);
        valid_utf8_split(bytes, at);
        decode_utf8_split(bytes, at);
        decode_utf8_encode_utf8(bytes.subrange(0, at));
        let head = without_hash(name);
        let tail = decode_utf8(bytes.subrange(at, bytes.len() as int));
        assert(name == head + tail);
        assert(head =~= name.subrange(0, head.len() as int));
    } else {
        assert(name =~= name.subrange(0, name.len() as int));
    }
}

/// The range that an address is looked up to is the last one that starts at or below it, and that one
/// only where it contains the address. Where there is none, the name is `<unknown>`.
pub proof fn law_last_range_below_is_found(names: Seq<RangeNameView>, pc: u32, i: int)
    requires
        0 <= i < names.len(),
        names[i].start <= pc,
        forall|j: int| i < j < names.len() ==> pc < #[trigger] names[j].start,
    ensures
        pc < names[i].end ==> range_at(names, pc) == Some(i) && name_at(names, pc) == names[i].name,
        pc >= names[i].end ==> range_at(names, pc) is None && name_at(names, pc) == "<unknown>"@,
{
    lemma_last_at_or_below(names, pc, i);
}

/// An address below every range has no name.
pub proof fn law_address_below_every_range_is_unknown(names: Seq<RangeNameView>, pc: u32)
    requires
        forall|j: int| 0 <= j < names.len() ==> pc < #[trigger] names[j].start,
    ensures
        range_at(names, pc) is None,
        name_at(names, pc) == "<unknown>"@,
{
    lemma_none_at_or_below(names, pc);
}

/// The range of a symbol starts at the symbol's value with only the lowest bit cleared, and is as long
/// as the symbol's size, both modulo 2^32.
pub proof fn law_range_is_as_long_as_the_symbol(symbol: SymbolView)
    ensures
        ({
            let value = symbol.value as int % 0x1_0000_0000;
            let size = symbol.size as int % 0x1_0000_0000;
            &&& symbol_start(symbol) % 2 == 0
            &&& value - 1 <= symbol_start(symbol) <= value
            &&& symbol_end(symbol) - symbol_start(symbol) == size
            &&& symbol_end(symbol) <= 0xffff_ffff ==> {
                &&& range_name(symbol).start as int % 2 == 0
                &&& value - 1 <= range_name(symbol).start <= value
                &&& range_name(symbol).end - range_name(symbol).start == size
            }
            &&& symbol.name matches NameView::Text(name) ==> range_name(symbol).name
                == without_hash(demangled(name))
        }),
{
}

/// Ranges of symbols that follow each other follow each other: where one symbol ends at the value of
/// the next, whatever its thumb bit, the ranges have no address in common and none between them.
pub proof fn law_adjacent_symbols_have_adjacent_ranges(a: SymbolView, b: SymbolView)
    requires
        a.value <= 0xffff_ffff,
        b.value <= 0xffff_ffff,
        a.size <= 0xffff_ffff,
        a.value as int % 2 == b.value as int % 2,
        a.value + a.size == b.value,
        symbol_end(a) <= 0xffff_ffff,
        symbol_end(b) <= 0xffff_ffff,
    ensures
        range_name(a).end == range_name(b).start,
{
}

/// A symbol can be used unless its name cannot be read; one that is defined in the section of the code
/// and not empty, unless its range ends beyond the last address or its demangled name cannot be cut.
pub proof fn law_symbols_that_can_be_used(symbol: SymbolView, text: Option<Shndx>)
    ensures
        symbol.name is Unreadable ==> !usable(symbol, text),
        symbol.name is Missing ==> usable(symbol, text),
        symbol.name matches NameView::Text(name) ==> {
            let value = symbol.value as int % 0x1_0000_0000;
            let end = value - value % 2 + symbol.size as int % 0x1_0000_0000;
            usable(symbol, text) <==> (text == Some(symbol.shndx) && symbol.size != 0 ==> end
                <= 0xffff_ffff && cuttable(demangled(name)))
        },
{
}

/// Every named symbol that is defined in the section of the code and not empty has a range among the
/// ranges in the order of their starts: the one that starts at its value, the lowest bit cleared, is
/// as long as its size, and has its demangled name without the hash.
pub proof fn law_every_function_is_named(
    symbols: Seq<SymbolView>,
    text: Shndx,
    names: Seq<RangeNameView>,
    i: int,
) -> (k: int)
    requires
        all_usable(symbols, Some(text)),
        sorting_of(names, code_ranges(symbols, Some(text))),
        0 <= i < symbols.len(),
        symbols[i].name is Text,
        symbols[i].shndx == text,
        symbols[i].size != 0,
    ensures
        0 <= k < names.len(),
        ({
            let value = symbols[i].value as int % 0x1_0000_0000;
            &&& names[k].start == value - value % 2
            &&& names[k].end - names[k].start == symbols[i].size as int % 0x1_0000_0000
            &&& names[k].name == without_hash(demangled(symbols[i].name->Text_0))
        }),
{
    assert(usable(symbols[i], Some(text)));
    law_every_code_symbol_has_its_range(symbols, Some(text), names, i);
    choose|k: int| 0 <= k < names.len() && names[k] == range_name(symbols[i])
}

/// Every range is that of a named symbol that is defined in the section of the code and not empty, and
/// there are as many ranges as such symbols.
pub proof fn law_every_range_is_that_of_a_function(
    symbols: Seq<SymbolView>,
    text: Option<Shndx>,
    names: Seq<RangeNameView>,
    k: int,
) -> (i: int)
    requires
        sorting_of(names, code_ranges(symbols, text)),
        0 <= k < names.len(),
    ensures
        0 <= i < symbols.len(),
        symbols[i].name is Text,
        text == Some(symbols[i].shndx),
        symbols[i].size != 0,
        names[k] == range_name(symbols[i]),
        names.len() == symbols.filter(
            |s: SymbolView| s.name is Text && text == Some(s.shndx) && s.size != 0,
        ).len(),
{
    let ranges = code_ranges(symbols, text);
    ranges.to_multiset_ensures();
    names.to_multiset_ensures();
    assert(names.to_multiset().count(names[k]) > 0);
    assert(ranges.contains(names[k]));
    let m = choose|m: int| 0 <= m < ranges.len() && ranges[m] == names[k];
    lemma_ranges_are_as_many_as_functions(symbols, text);
    lemma_symbol_of_range(symbols, text, m)
}

/// A range in the order of the table is that of a symbol that names code.
proof fn lemma_symbol_of_range(symbols: Seq<SymbolView>, text: Option<Shndx>, m: int) -> (i: int)
    requires
        0 <= m < code_ranges(symbols, text).len(),
    ensures
        0 <= i < symbols.len(),
        symbols[i].name is Text,
        text == Some(symbols[i].shndx),
        symbols[i].size != 0,
        code_ranges(symbols, text)[m] == range_name(symbols[i]),
    decreases symbols.len(),
{
    if m < code_ranges(symbols.drop_last(), text).len() {
        lemma_symbol_of_range(symbols.drop_last(), text, m)
    } else {
        symbols.len() - 1
    }
}

/// There are as many ranges as symbols that name code.
proof fn lemma_ranges_are_as_many_as_functions(symbols: Seq<SymbolView>, text: Option<Shndx>)
    ensures
        code_ranges(symbols, text).len() == symbols.filter(
            |s: SymbolView| s.name is Text && text == Some(s.shndx) && s.size != 0,
        ).len(),
    decreases symbols.len(),
{
    reveal(Seq::filter);
    if symbols.len() > 0 {
        lemma_ranges_are_as_many_as_functions(symbols.drop_last(), text);
    }
}

/// The ranges are in the order of their starts, and a sorting neither drops nor repeats any.
pub proof fn law_sorting_keeps_every_range(
    names: Seq<RangeNameView>,
    entries: Seq<RangeNameView>,
    i: int,
    j: int,
)
    requires
        sorting_of(names, entries),
        0 <= i < j < names.len(),
    ensures
        names.len() == entries.len(),
        names[i].start <= names[j].start,
        forall|entry: RangeNameView|
            #[trigger] names.to_multiset().count(entry) == entries.to_multiset().count(entry),
{
    names.to_multiset_ensures();
    entries.to_multiset_ensures();
}

/// The RTT control block is at the value of the last symbol called `_SEGGER_RTT`, modulo 2^32, and
/// there is none where there is no such symbol.
pub proof fn law_last_control_block_counts(symbols: Seq<SymbolView>, i: int)
    requires
        0 <= i < symbols.len(),
        symbols[i].name == NameView::Text("_SEGGER_RTT"@),
        forall|j: int|
            i < j < symbols.len() ==> (#[trigger] symbols[j]).name != NameView::Text(
                "_SEGGER_RTT"@,
            ),
    ensures
        rtt_address(symbols) is Some,
        rtt_address(symbols)->Some_0 == symbols[i].value as int % 0x1_0000_0000,
    decreases symbols.len(),
{
    if i < symbols.len() - 1 {
        assert(symbols[symbols.len() - 1].name != NameView::Text("_SEGGER_RTT"@));
        law_last_control_block_counts(symbols.drop_last(), i);
    }
}

/// Without a symbol called `_SEGGER_RTT` there is no RTT control block.
pub proof fn law_no_symbol_no_control_block(symbols: Seq<SymbolView>)
    requires
        forall|j: int|
            0 <= j < symbols.len() ==> (#[trigger] symbols[j]).name != NameView::Text(
                "_SEGGER_RTT"@,
            ),
    ensures
        rtt_address(symbols) is None,
    decreases symbols.len(),
{
    if symbols.len() > 0 {
        assert(symbols[symbols.len() - 1].name != NameView::Text("_SEGGER_RTT"@));
        law_no_symbol_no_control_block(symbols.drop_last());
    }
}

/// The encoding of two texts after each other is that of the one and that of the other.
proof fn lemma_encoding_of_both(a: Seq<char>, b: Seq<char>)
    ensures
        encode_utf8(a + b) == encode_utf8(a) + encode_utf8(b),
    decreases a.len(),
{
    if a.len() == 0 {
        assert(a + b =~= b);
        assert(encode_utf8(a) + encode_utf8(b) =~= encode_utf8(b));
    } else {
        lemma_encoding_of_both(a.drop_first(), b);
        assert((a + b).drop_first() =~= a.drop_first() + b);
        assert(encode_utf8(a + b) =~= encode_utf8(a) + encode_utf8(b));
    }
}

/// Of a name that a hash ends, exactly the hash is stripped: nineteen bytes that begin with `::h`,
/// whatever comes before them and after the `h`.
pub proof fn law_hash_is_stripped(name: Seq<char>, rest: Seq<char>)
    requires
        encode_utf8(rest).len() == 16,
    ensures
        cuttable(name + seq![':', ':', 'h'] + rest),
        without_hash(name + seq![':', ':', 'h'] + rest) == name,
{
    let mark = seq![':', ':', 'h'];
    let whole = name + mark + rest;
    assert(encode_utf8(mark) == seq![0x3au8, 0x3a, 0x68]) by {
        assert(is_ascii_chars(mark));
        is_ascii_chars_encode_utf8(mark);
        assert(encode_utf8(mark) =~= seq![0x3au8, 0x3a, 0x68]);
    }
    lemma_encoding_of_both(name, mark);
    lemma_encoding_of_both(name + mark, rest);
    let bytes = encode_utf8(whole);
    let at = encode_utf8(name).len() as int;
    assert(hash_position(whole) == at);
    assert(bytes[at] == 0x3a && bytes[at + 1] == 0x3a && bytes[at + 2] == 0x68);
    assert(bytes.subrange(0, at) =~= encode_utf8(name));
    encode_utf8_decode_utf8(name);
    encode_utf8_valid_utf8(whole);
    is_char_boundary_iff_is_leading_byte(bytes, at);
    assert(is_leading_byte_width_1(bytes[at]));
}

/// A name that does not have `::h` where a hash would start is kept.
pub proof fn law_name_without_a_hash_is_kept(name: Seq<char>)
    requires
        encode_utf8(name).len() < 19 || encode_utf8(name).subrange(
            encode_utf8(name).len() - 19,
            encode_utf8(name).len() - 16,
        ) != seq![0x3au8, 0x3a, 0x68],
    ensures
        without_hash(name) == name,
{
    let bytes = encode_utf8(name);
    if ends_with_hash(name) {
        assert(bytes.subrange(bytes.len() - 19, bytes.len() - 16) =~= seq![0x3au8, 0x3a, 0x68]);
    }
}

/// A name can be cut where its last nineteen bytes are characters of their own, and where it has fewer
/// bytes than that.
pub proof fn law_name_is_cut_between_characters(head: Seq<char>, tail: Seq<char>)
    requires
        encode_utf8(tail).len() == 19 || encode_utf8(head + tail).len() < 19,
    ensures
        cuttable(head + tail),
{
    if encode_utf8(head + tail).len() >= 19 {
        lemma_encoding_of_both(head, tail);
        let bytes = encode_utf8(head + tail);
        let at = encode_utf8(head).len() as int;
        encode_utf8_valid_utf8(head + tail);
        encode_utf8_first_scalar(tail);
        assert(bytes[at] == encode_utf8(tail)[0]);
        is_char_boundary_iff_is_leading_byte(bytes, at);
        assert(is_leading_byte_width_1(bytes[at]) || is_leading_byte_width_2(bytes[at])
            || is_leading_byte_width_3(bytes[at]) || is_leading_byte_width_4(bytes[at]));
    }
}

/// A name that can be cut is two texts after each other, of which the second has nineteen bytes, or has
/// fewer bytes than that.
pub proof fn law_cut_name_is_two_texts(name: Seq<char>) -> (tail: Seq<char>)
    requires
        cuttable(name),
        encode_utf8(name).len() >= 19,
    ensures
        encode_utf8(tail).len() == 19,
        exists|head: Seq<char>| name == #[trigger] (head + tail),
{
    let bytes = encode_utf8(name);
    let at = bytes.len() - 19;
    encode_utf8_valid_utf8(name);
    encode_utf8_decode_utf8(name);
    valid_utf8_split(bytes, at);
    decode_utf8_split(bytes, at);
    let tail = decode_utf8(bytes.subrange(at, bytes.len() as int));
    decode_utf8_encode_utf8(bytes.subrange(at, bytes.len() as int));
    let head = decode_utf8(bytes.subrange(0, at));
    assert(name == head + tail);
    tail
}

/// Symbols can be used exactly if each of them can.
pub proof fn law_symbols_are_judged_one_by_one(
    symbols: Seq<SymbolView>,
    symbol: SymbolView,
    text: Option<Shndx>,
)
    ensures
        all_usable(symbols.push(symbol), text) <==> all_usable(symbols, text) && usable(symbol, text),
        all_usable(seq![], text),
{
    let more = symbols.push(symbol);
    assert(more[symbols.len() as int] == symbol);
    assert forall|i: int| 0 <= i < symbols.len() implies #[trigger] symbols[i] == more[i] by {}
    if all_usable(more, text) {
        assert forall|i: int| 0 <= i < symbols.len() implies #[trigger] usable(symbols[i], text) by {
            assert(usable(more[i], text));
        }
        assert(usable(more[symbols.len() as int], text));
    }
}

} // verus!

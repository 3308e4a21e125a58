//! Call frame information: the rules of the `.debug_frame` section by which the registers of a
//! caller are recovered.
use gimli::read::{CfaRule, CieOrFde, DebugFrame, RegisterRule, UnwindSection};
use gimli::{BaseAddresses, LittleEndian, UninitializedUnwindContext};
use vstd::prelude::*;
use vstd::slice::slice_to_vec;

verus! {

/// How the canonical frame address (CFA) is found.
#[derive(Clone, Copy, PartialEq, Eq, Debug, Structural)]
pub enum Cfa {
    /// It is the value of a register plus an offset.
    RegisterAndOffset { register: u16, offset: i64 },
    /// It is the value of a DWARF expression.
    Expression,
}

/// How the value that a register had in the caller is found.
#[derive(Clone, Copy, PartialEq, Eq, Debug, Structural)]
pub enum Rule {
    /// It is not known.
    Undefined,
    /// It is saved at the CFA plus an offset.
    Offset(i64),
    /// By any other rule.
    Other,
}

/// The rules for one address.
#[derive(Debug)]
pub struct UnwindRow {
    /// How the CFA is found.
    pub cfa: Cfa,
    /// How the registers are found, in the order in which the rules are applied.
    pub registers: Vec<(u16, Rule)>,
}

/// The model of [`UnwindRow`].
pub struct UnwindRowView {
    pub cfa: Cfa,
    pub registers: Seq<(u16, Rule)>,
}

impl View for UnwindRow {
    type V = UnwindRowView;

    open spec fn view(&self) -> UnwindRowView {
        UnwindRowView { cfa: self.cfa, registers: self.registers@ }
    }
}

/// An entry of the `.debug_frame` section.
#[derive(Clone, Copy, PartialEq, Eq, Debug, Structural)]
pub enum FrameEntry {
    /// What frame descriptions have in common.
    Common,
    /// A frame description, for the addresses from the start on.
    Frame { start: u64, len: u64 },
    /// An entry that cannot be read.
    Unreadable,
}

/// The entries of the section, in its order, up to the first whose length or kind cannot be read.
pub uninterp spec fn frame_entries(debug_frame: Seq<u8>) -> Seq<FrameEntry>;

/// The rules that the section gives for the last of the addresses, if it gives any, where the
/// addresses are looked up one after the other with one context.
pub uninterp spec fn unwind_row(debug_frame: Seq<u8>, addresses: Seq<u32>) -> Option<UnwindRowView>;

/// Whether the address lies in the range of the entry.
pub open spec fn in_range(entry: FrameEntry, address: u32) -> bool {
    entry matches FrameEntry::Frame { start, len } && start <= address < start + len
}

/// Whether the end of the range of the entry can be computed.
pub open spec fn has_end(entry: FrameEntry) -> bool {
    entry matches FrameEntry::Frame { start, len } ==> start + len <= u64::MAX
}

/// Whether a search for the address comes to its end with the entry: the address lies in its range, or
/// it cannot be read.
pub open spec fn ends_search(entry: FrameEntry, address: u32) -> bool {
    entry is Unreadable || in_range(entry, address)
}

/// Whether the address can be searched in the entries: every range has an end, up to the entry with
/// which the search ends.
pub open spec fn searchable(entries: Seq<FrameEntry>, address: u32) -> bool {
    forall|i: int|
        0 <= i < entries.len() && !#[trigger] has_end(entries[i]) ==> exists|j: int|
            0 <= j < i && #[trigger] ends_search(entries[j], address)
}

/// Whether each of the addresses can be searched.
pub open spec fn all_searchable(entries: Seq<FrameEntry>, addresses: Seq<u32>) -> bool {
    forall|i: int| 0 <= i < addresses.len() ==> #[trigger] searchable(entries, addresses[i])
}

/// `UnwindSection::entries`, each entry for itself, with `PartialFrameDescriptionEntry::parse` on
/// frame descriptions. It is a function of the section alone, addresses of the older versions being
/// four bytes long.
#[verifier::external_body]
fn read_frame_entries(debug_frame: &[u8]) -> (entries: Vec<FrameEntry>)
    ensures
        entries@ == frame_entries(debug_frame@),
{
    let mut section = DebugFrame::new(debug_frame, LittleEndian);
    section.set_address_size(4);
    let bases = BaseAddresses::default();
    let mut entries = section.entries(&bases);
    std::iter::from_fn(|| entries.next().transpose()).map(|entry| match entry {
        Ok(CieOrFde::Cie(_)) => FrameEntry::Common,
        Ok(CieOrFde::Fde(partial)) => match partial.parse(DebugFrame::cie_from_offset) {
            Ok(fde) => FrameEntry::Frame { start: fde.initial_address(), len: fde.len() },
            Err(_) => FrameEntry::Unreadable,
        },
        Err(_) => FrameEntry::Unreadable,
    }).collect()
}

/// `UnwindSection::unwind_info_for_address` on the addresses, one after the other, with one context:
/// what it gives for the last of them, and `None` for an error. It is a function of the section and
/// of the addresses, addresses of the older versions being four bytes long. It adds the start and the
/// length of each range that it looks at, which has to fit in 64 bits.
///
/// An error can leave something in the context that bears on later addresses. Rules that are found
/// leave nothing: what comes after them is as with a new context.
#[verifier::external_body]
fn unwind_info_for_addresses(debug_frame: &[u8], addresses: &Vec<u32>) -> (row: Option<UnwindRow>)
    requires
        all_searchable(frame_entries(debug_frame@), addresses@),
    ensures
        match row {
            Some(row) => unwind_row(debug_frame@, addresses@) == Some(row@),
            None => unwind_row(debug_frame@, addresses@) is None,
        },
        row is Some ==> forall|later: Seq<u32>|
            later.len() > 0 && all_searchable(frame_entries(debug_frame@), later) ==> #[trigger]
            unwind_row(debug_frame@, addresses@ + later) == unwind_row(debug_frame@, later),
{
    let mut section = DebugFrame::new(debug_frame, LittleEndian);
    section.set_address_size(4);
    let ctx = &mut UninitializedUnwindContext::new();
    let row = addresses.iter().map(|&address|
        section.unwind_info_for_address(&BaseAddresses::default(), ctx, address.into(), DebugFrame::cie_from_offset)
    ).last()?.ok()?;
    let cfa = match *row.cfa() {
        CfaRule::RegisterAndOffset { register, offset } => Cfa::RegisterAndOffset { register: register.0, offset },
        CfaRule::Expression(_) => Cfa::Expression,
    };
    Some(UnwindRow { cfa, registers: row.registers().map(|(register, rule)| (register.0, match rule {
        RegisterRule::Undefined => Rule::Undefined,
        RegisterRule::Offset(offset) => Rule::Offset(*offset),
        _ => Rule::Other,
    })).collect() })
}

/// What the section says of an address.
#[derive(Debug)]
pub enum Lookup {
    /// Nothing can be said: one of the ranges that come before the address is found has no end.
    Unsearchable,
    /// It has no rules for the address.
    Missing,
    /// Its rules for the address.
    Found(UnwindRow),
}

/// The model of [`Lookup`].
pub enum LookupView {
    Unsearchable,
    Missing,
    Found(UnwindRowView),
}

impl View for Lookup {
    type V = LookupView;

    open spec fn view(&self) -> LookupView {
        match self {
            Lookup::Unsearchable => LookupView::Unsearchable,
            Lookup::Missing => LookupView::Missing,
            Lookup::Found(row) => LookupView::Found(row@),
        }
    }
}

/// What the section says of the address, after the lookups of the earlier addresses.
pub open spec fn lookup(debug_frame: Seq<u8>, earlier: Seq<u32>, address: u32) -> LookupView {
    if !searchable(frame_entries(debug_frame), address) {
        LookupView::Unsearchable
    } else {
        match unwind_row(debug_frame, earlier.push(address)) {
            Some(row) => LookupView::Found(row),
            None => LookupView::Missing,
        }
    }
}

/// The lookups after one more. One that cannot be made does not count.
pub open spec fn lookups_after(debug_frame: Seq<u8>, earlier: Seq<u32>, address: u32) -> Seq<u32> {
    if searchable(frame_entries(debug_frame), address) {
        earlier.push(address)
    } else {
        earlier
    }
}

/// Whether the address can be searched in the entries.
pub fn is_searchable(entries: &Vec<FrameEntry>, address: u32) -> (ok: bool)
    ensures
        ok == searchable(entries@, address),
{
    let mut i: usize = 0;
    while i < entries.len()
        invariant
            i <= entries.len(),
            forall|j: int| 0 <= j < i ==> #[trigger] has_end(entries@[j]),
            forall|j: int| 0 <= j < i ==> !#[trigger] ends_search(entries@[j], address),
        decreases entries.len() - i,
    {
        match entries[i] {
            FrameEntry::Common => {},
            FrameEntry::Unreadable => {
                assert(ends_search(entries@[i as int], address));
                assert(has_end(entries@[i as int]));
                return true;
            },
            FrameEntry::Frame { start, len } => match start.checked_add(len) {
                None => {
                    assert(!has_end(entries@[i as int]));
                    return false;
                },
                Some(end) => {
                    if start <= address as u64 && (address as u64) < end {
                        assert(ends_search(entries@[i as int], address));
                        assert(has_end(entries@[i as int]));
                        return true;
                    }
                },
            },
        }
        i += 1;
    }
    true
}

/// The lookups that have been made.
struct Lookups {
    /// Those since the last one that found rules.
    recent: Vec<u32>,
    /// All of them.
    all: Ghost<Seq<u32>>,
}

/// The `.debug_frame` section, and the lookups that have been made in it. All of them share one
/// context, as they do where a stack is walked: what one that failed leaves there bears on the next.
pub struct FrameTable<'a> {
    debug_frame: &'a [u8],
    entries: Vec<FrameEntry>,
    lookups: Lookups,
}

/// The model of [`FrameTable`].
pub struct FrameTableView {
    /// The section.
    pub debug_frame: Seq<u8>,
    /// The addresses that have been looked up.
    pub lookups: Seq<u32>,
}

impl<'a> View for FrameTable<'a> {
    type V = FrameTableView;

    closed spec fn view(&self) -> FrameTableView {
        FrameTableView { debug_frame: self.debug_frame@, lookups: self.lookups.all@ }
    }
}

/// Whether some lookups bear on the next ones as others do.
spec fn bear_alike(debug_frame: Seq<u8>, some: Seq<u32>, others: Seq<u32>) -> bool {
    forall|later: Seq<u32>|
        later.len() > 0 && all_searchable(frame_entries(debug_frame), later)
            ==> #[trigger] unwind_row(debug_frame, some + later) == unwind_row(
            debug_frame,
            others + later,
        )
}

/// Lookups that bear alike still do after one more.
proof fn lemma_bear_alike(debug_frame: Seq<u8>, some: Seq<u32>, others: Seq<u32>, address: u32)
    requires
        bear_alike(debug_frame, some, others),
        searchable(frame_entries(debug_frame), address),
    ensures
        unwind_row(debug_frame, some.push(address)) == unwind_row(
            debug_frame,
            others.push(address),
        ),
        bear_alike(debug_frame, some.push(address), others.push(address)),
{
    let entries = frame_entries(debug_frame);
    let one = seq![address];
    assert(all_searchable(entries, one));
    assert(some + one =~= some.push(address));
    assert(others + one =~= others.push(address));
    assert forall|later: Seq<u32>|
        later.len() > 0 && all_searchable(entries, later) implies #[trigger] unwind_row(
        debug_frame,
        some.push(address) + later,
    ) == unwind_row(debug_frame, others.push(address) + later) by {
        assert(some.push(address) + later =~= some + (one + later));
        assert(others.push(address) + later =~= others + (one + later));
        assert forall|i: int| 0 <= i < (one + later).len() implies #[trigger] searchable(
            entries,
            (one + later)[i],
        ) by {
            if i > 0 {
                assert(searchable(entries, later[i - 1]));
            }
        }
    }
}

impl<'a> FrameTable<'a> {
    /// The entries are those of the section, and the recent lookups, which can all be made, bear on
    /// the next ones as all lookups do.
    #[verifier::type_invariant]
    spec fn is_table(self) -> bool {
        &&& self.entries@ == frame_entries(self.debug_frame@)
        &&& all_searchable(self.entries@, self.lookups.recent@)
        &&& bear_alike(self.debug_frame@, self.lookups.all@, self.lookups.recent@)
    }

    /// The section, before any lookup.
    pub fn new(debug_frame: &'a [u8]) -> (table: Self)
        ensures
            table@ == (FrameTableView { debug_frame: debug_frame@, lookups: Seq::empty() }),
    {
        FrameTable {
            debug_frame,
            entries: read_frame_entries(debug_frame),
            lookups: Lookups { recent: Vec::new(), all: Ghost(Seq::empty()) },
        }
    }

    /// Looks the address up.
    pub fn find_row(&mut self, address: u32) -> (found: Lookup)
        ensures
            final(self)@ == (FrameTableView {
                lookups: lookups_after(old(self)@.debug_frame, old(self)@.lookups, address),
                ..old(self)@
            }),
            found@ == lookup(old(self)@.debug_frame, old(self)@.lookups, address),
    {
        proof {
            use_type_invariant(&*self);
        }
        if !is_searchable(&self.entries, address) {
            return Lookup::Unsearchable;
        }
        let ghost all = self.lookups.all@;
        let mut recent: Vec<u32> = slice_to_vec(self.lookups.recent.as_slice());
        proof {
            lemma_bear_alike(self.debug_frame@, all, recent@, address);
        }
        recent.push(address);
        match unwind_info_for_addresses(self.debug_frame, &recent) {
            Some(row) => {
                let none: Vec<u32> = Vec::new();
                assert forall|later: Seq<u32>|
                    later.len() > 0 && all_searchable(
                        self.entries@,
                        later,
                    ) implies #[trigger] unwind_row(self.debug_frame@, all.push(address) + later)
                    == unwind_row(self.debug_frame@, none@ + later) by {
                    assert(none@ + later =~= later);
                }
                self.lookups = Lookups { recent: none, all: Ghost(all.push(address)) };
                Lookup::Found(row)
            },
            None => {
                self.lookups = Lookups { recent, all: Ghost(all.push(address)) };
                Lookup::Missing
            },
        }
    }
}

// -------------------------------------------------------------------------------------------
// Laws.

/// An address can be searched wherever every range that the section describes has an end, and cannot
/// where the first of its entries is a range without one.
pub proof fn law_endless_ranges_stop_the_search(entries: Seq<FrameEntry>, address: u32)
    ensures
        (forall|i: int|
            0 <= i < entries.len() ==> (#[trigger] entries[i] matches FrameEntry::Frame { start, len }
                ==> start + len <= 0xffff_ffff_ffff_ffff)) ==> searchable(entries, address),
        entries.len() > 0 && (entries[0] matches FrameEntry::Frame { start, len } && start + len
            > 0xffff_ffff_ffff_ffff) ==> !searchable(entries, address),
{
    if entries.len() > 0 && (entries[0] matches FrameEntry::Frame { start, len } && start + len
        > 0xffff_ffff_ffff_ffff) {
        assert(!has_end(entries[0]));
    }
}

/// A search does not get beyond a range that the address lies in, nor beyond an entry that cannot be
/// read: what comes after it does not matter.
pub proof fn law_search_ends_at_the_address(
    before: Seq<FrameEntry>,
    entry: FrameEntry,
    after: Seq<FrameEntry>,
    address: u32,
)
    requires
        entry is Unreadable || (entry matches FrameEntry::Frame { start, len } && start <= address
            < start + len && start + len <= 0xffff_ffff_ffff_ffff),
        searchable(before, address),
    ensures
        searchable(before.push(entry) + after, address),
{
    let all = before.push(entry) + after;
    assert(ends_search(all[before.len() as int], address));
    assert forall|i: int| 0 <= i < all.len() && !#[trigger] has_end(all[i]) implies exists|j: int|
        0 <= j < i && #[trigger] ends_search(all[j], address) by {
        if i < before.len() {
            assert(!has_end(before[i]));
            let j = choose|j: int| 0 <= j < i && #[trigger] ends_search(before[j], address);
            assert(ends_search(all[j], address));
        } else {
            assert(i != before.len());
        }
    }
}

/// What is found is what the section gives for the address after the earlier lookups, nothing more and
/// nothing less, and each lookup that is made counts for the later ones.
pub proof fn law_lookup_is_what_the_section_gives(
    debug_frame: Seq<u8>,
    earlier: Seq<u32>,
    address: u32,
)
    requires
        searchable(frame_entries(debug_frame), address),
    ensures
        match unwind_row(debug_frame, earlier.push(address)) {
            Some(row) => lookup(debug_frame, earlier, address) == LookupView::Found(row),
            None => lookup(debug_frame, earlier, address) is Missing,
        },
        lookups_after(debug_frame, earlier, address) == earlier.push(address),
{
}

/// A search goes from entry to entry. A range without an end stops it, the range that the address lies
/// in and an entry that cannot be read end it, and anything else is passed over.
pub proof fn law_search_goes_from_entry_to_entry(
    entry: FrameEntry,
    rest: Seq<FrameEntry>,
    address: u32,
)
    ensures
        searchable(seq![entry] + rest, address) <==> match entry {
            FrameEntry::Common => searchable(rest, address),
            FrameEntry::Unreadable => true,
            FrameEntry::Frame { start, len } => start + len <= 0xffff_ffff_ffff_ffff && (start
                <= address < start + len || searchable(rest, address)),
        },
        searchable(seq![], address),
{
    let all = seq![entry] + rest;
    assert(all[0] == entry);
    assert forall|i: int| 0 <= i < rest.len() implies #[trigger] rest[i] == all[i + 1] by {}
    if searchable(all, address) {
        if !has_end(entry) {
            assert(!has_end(all[0]));
        }
        if !ends_search(entry, address) {
            assert forall|i: int| 0 <= i < rest.len() && !#[trigger] has_end(
                rest[i],
            ) implies exists|j: int| 0 <= j < i && #[trigger] ends_search(rest[j], address) by {
                assert(!has_end(all[i + 1]));
                let j = choose|j: int| 0 <= j < i + 1 && #[trigger] ends_search(all[j], address);
                assert(j != 0);
                assert(ends_search(rest[j - 1], address));
            }
        }
    } else {
        let i = choose|i: int|
            0 <= i < all.len() && !#[trigger] has_end(all[i]) && forall|j: int|
                0 <= j < i ==> !#[trigger] ends_search(all[j], address);
        if i > 0 {
            assert(!ends_search(all[0], address));
            assert(!has_end(rest[i - 1]));
            assert forall|j: int| 0 <= j < i - 1 implies !#[trigger] ends_search(
                rest[j],
                address,
            ) by {
                assert(!ends_search(all[j + 1], address));
            }
            assert(!searchable(rest, address));
        }
    }
}

} // verus!

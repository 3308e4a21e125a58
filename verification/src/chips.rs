//! The list of supported chips.
use vstd::prelude::*;
use vstd::string::*;

use crate::backtrace::lines_view;

verus! {

/// A family of chips.
#[derive(Debug)]
pub struct ChipFamily {
    /// Name of the family.
    pub name: String,
    /// Names of the chips of the family.
    pub variants: Vec<String>,
}

/// The model of [`ChipFamily`].
pub struct ChipFamilyView {
    pub name: Seq<char>,
    pub variants: Seq<Seq<char>>,
}

impl View for ChipFamily {
    type V = ChipFamilyView;

    open spec fn view(&self) -> ChipFamilyView {
        ChipFamilyView { name: self.name@, variants: lines_view(self.variants@) }
    }
}

/// The models of families.
pub open spec fn families_view(families: Seq<ChipFamily>) -> Seq<ChipFamilyView> {
    families.map_values(|family: ChipFamily| family@)
}

/// The line for a chip.
pub open spec fn variant_line(variant: Seq<char>) -> Seq<char> {
    "        "@ + variant
}

/// The lines for a family: its name, and then the names of its chips, indented.
pub open spec fn family_lines(family: ChipFamilyView) -> Seq<Seq<char>> {
    seq![family.name, "    Variants:"@] + family.variants.map_values(
        |variant: Seq<char>| variant_line(variant),
    )
}

/// The lines for the families, in their order.
pub open spec fn chip_lines(families: Seq<ChipFamilyView>) -> Seq<Seq<char>>
    decreases families.len(),
{
    if families.len() == 0 {
        seq![]
    } else {
        chip_lines(families.drop_last()) + family_lines(families.last())
    }
}

/// Appends the lines for the family.
fn push_family(lines: &mut Vec<String>, family: &ChipFamily)
    ensures
        lines_view(final(lines)@) == lines_view(old(lines)@) + family_lines(family@),
{
    let ghost variants = lines_view(family.variants@);
    lines.push(family.name.clone());
    lines.push("    Variants:".to_owned());
    let ghost head = lines_view(lines@);
    assert(head =~= lines_view(old(lines)@) + seq![family.name@, "    Variants:"@]);
    let mut i: usize = 0;
    assert(lines_view(lines@) =~= head + variants.take(0).map_values(
        |variant: Seq<char>| variant_line(variant),
    ));
    while i < family.variants.len()
        invariant
            i <= family.variants.len(),
            variants == lines_view(family.variants@),
            lines_view(lines@) == head + variants.take(i as int).map_values(
                |variant: Seq<char>| variant_line(variant),
            ),
        decreases family.variants.len() - i,
    {
        let ghost before = lines@;
        let mut line: String = "        ".to_owned();
        line.append(family.variants[i].as_str());
        lines.push(line);
        assert(lines_view(lines@) =~= lines_view(before).push(variant_line(variants[i as int])));
        assert(variants.take(i + 1).map_values(|variant: Seq<char>| variant_line(variant))
            =~= variants.take(i as int).map_values(
            |variant: Seq<char>| variant_line(variant),
        ).push(variant_line(variants[i as int])));
        i += 1;
    }
    assert(variants.take(i as int) =~= variants);
    assert(lines_view(lines@) =~= lines_view(old(lines)@) + family_lines(family@));
}

/// The lines that list the chips.
pub fn list_chips(families: &Vec<ChipFamily>) -> (lines: Vec<String>)
    ensures
        lines_view(lines@) == chip_lines(families_view(families@)),
{
    let ghost view = families_view(families@);
    let mut lines: Vec<String> = Vec::new();
    let mut i: usize = 0;
    assert(lines_view(lines@) =~= chip_lines(view.take(0)));
    while i < families.len()
        invariant
            i <= families.len(),
            view == families_view(families@),
            lines_view(lines@) == chip_lines(view.take(i as int)),
        decreases families.len() - i,
    {
        assert(view.take(i + 1).drop_last() =~= view.take(i as int));
        assert(view.take(i + 1).last() == families@[i as int]@);
        push_family(&mut lines, &families[i]);
        i += 1;
    }
    assert(view.take(i as int) =~= view);
    lines
}

/// Every chip of every family is listed.
pub proof fn law_every_chip_is_listed(families: Seq<ChipFamilyView>, i: int, j: int)
    requires
        0 <= i < families.len(),
        0 <= j < families[i].variants.len(),
    ensures
        chip_lines(families).contains(variant_line(families[i].variants[j])),
    decreases families.len(),
{
    let line = variant_line(families[i].variants[j]);
    let before = chip_lines(families.drop_last());
    let last = family_lines(families.last());
    if i == families.len() - 1 {
        assert(last[2 + j] == line);
        assert(chip_lines(families)[before.len() + 2 + j] == line);
    } else {
        law_every_chip_is_listed(families.drop_last(), i, j);
        let k = choose|k: int| 0 <= k < before.len() && before[k] == line;
        assert(chip_lines(families)[k] == line);
    }
}

/// One more family adds its lines to the end: its name, a line of its own for the variants, and one line
/// for each of them, with eight blanks before its name.
pub proof fn law_families_are_listed_in_order(
    families: Seq<ChipFamilyView>,
    family: ChipFamilyView,
    j: int,
)
    requires
        0 <= j < family.variants.len(),
    ensures
        ({
            let before = chip_lines(families);
            let lines = chip_lines(families.push(family));
            &&& lines.len() == before.len() + 2 + family.variants.len()
            &&& lines.subrange(0, before.len() as int) == before
            &&& lines[before.len() as int] == family.name
            &&& lines[before.len() as int + 1] == "    Variants:"@
            &&& lines[before.len() + 2 + j] == seq![' ', ' ', ' ', ' ', ' ', ' ', ' ', ' ']
                + family.variants[j]
        }),
{
    reveal_strlit("        ");
    let before = chip_lines(families);
    let lines = chip_lines(families.push(family));
    assert(families.push(family).drop_last() =~= families);
    assert(lines.subrange(0, before.len() as int) =~= before);
    assert("        "@ =~= seq![' ', ' ', ' ', ' ', ' ', ' ', ' ', ' ']);
}

/// A family without chips is listed too.
pub proof fn law_family_without_chips_is_listed(families: Seq<ChipFamilyView>, family: ChipFamilyView)
    requires
        family.variants.len() == 0,
    ensures
        chip_lines(families.push(family)) == chip_lines(families) + seq![
            family.name,
            "    Variants:"@,
        ],
        chip_lines(seq![]).len() == 0,
{
    assert(families.push(family).drop_last() =~= families);
    assert(chip_lines(families.push(family)) =~= chip_lines(families) + seq![
        family.name,
        "    Variants:"@,
    ]);
}

} // verus!

//! How a program gets onto the target and is started there.
use vstd::prelude::*;
use vstd::slice::slice_to_vec;

use crate::program::{
    loaded_view, optional_data, DataView, InitialRegisters, Program, Section, SectionView,
};
use crate::registers::{RegisterAddress, LR, LR_END, PC, SP, VTOR};

verus! {

/// The first address of RAM: a program whose vector table is at or above it lives in RAM, any other
/// one in Flash.
pub const RAM_START: u32 = 0x2000_0000;

/// Something to do to the target.
#[derive(Debug)]
pub enum Operation {
    /// Tell the user.
    Report(&'static str),
    /// Reset the core, and halt it before it runs any code.
    ResetAndHalt,
    /// Write the words to the memory, from the address on.
    WriteWords { address: u32, words: Vec<u32> },
    /// Write the core register.
    WriteRegister { register: RegisterAddress, value: u32 },
    /// Write the word to the memory.
    WriteWord { address: u32, value: u32 },
    /// Let the core run.
    Run,
    /// Download the ELF file to Flash.
    Download,
    /// Reset the core, and let it run.
    Reset,
}

/// The model of [`Operation`].
#[verifier::ext_equal]
pub enum OperationView {
    Report(Seq<char>),
    ResetAndHalt,
    WriteWords { address: u32, words: Seq<u32> },
    WriteRegister { register: RegisterAddress, value: u32 },
    WriteWord { address: u32, value: u32 },
    Run,
    Download,
    Reset,
}

impl View for Operation {
    type V = OperationView;

    open spec fn view(&self) -> OperationView {
        match self {
            Operation::Report(text) => OperationView::Report(text@),
            Operation::ResetAndHalt => OperationView::ResetAndHalt,
            Operation::WriteWords { address, words } => OperationView::WriteWords {
                address: *address,
                words: words@,
            },
            Operation::WriteRegister { register, value } => OperationView::WriteRegister {
                register: *register,
                value: *value,
            },
            Operation::WriteWord { address, value } => OperationView::WriteWord {
                address: *address,
                value: *value,
            },
            Operation::Run => OperationView::Run,
            Operation::Download => OperationView::Download,
            Operation::Reset => OperationView::Reset,
        }
    }
}

/// The models of operations.
pub open spec fn operations_view(operations: Seq<Operation>) -> Seq<OperationView> {
    operations.map_values(|operation: Operation| operation@)
}

/// The section is written to where it starts.
pub open spec fn write_section(section: SectionView) -> OperationView {
    OperationView::WriteWords { address: section.start, words: section.data }
}

/// The sections are written, each to where it starts, and then `.data` to its physical address.
pub open spec fn write_memory(sections: Seq<SectionView>, dotdata: Option<DataView>) -> Seq<
    OperationView,
> {
    let written = sections.map_values(|section: SectionView| write_section(section));
    match dotdata {
        Some(data) => written.push(
            OperationView::WriteWords { address: data.phys, words: data.data },
        ),
        None => written,
    }
}

/// The registers are set: the link register to the value that indicates the end of the call stack,
/// the stack pointer and the program counter to what the vector table gives, and the address of the
/// vector table.
pub open spec fn write_registers(registers: InitialRegisters) -> Seq<OperationView> {
    seq![
        OperationView::WriteRegister { register: LR, value: LR_END },
        OperationView::WriteRegister { register: SP, value: registers.sp },
        OperationView::WriteRegister { register: PC, value: registers.pc },
        OperationView::WriteWord { address: VTOR, value: registers.vtor },
    ]
}

/// What is done to the target so that the program runs.
pub open spec fn start_operations(
    sections: Seq<SectionView>,
    dotdata: Option<DataView>,
    registers: InitialRegisters,
) -> Seq<OperationView> {
    let start = if registers.vtor >= RAM_START {
        seq![OperationView::ResetAndHalt] + write_memory(sections, dotdata) + write_registers(
            registers,
        ) + seq![OperationView::Report("DONE"@), OperationView::Run]
    } else {
        seq![OperationView::Download, OperationView::Report("DONE"@), OperationView::Reset]
    };
    seq![OperationView::Report("flashing program .."@)] + start + seq![
        OperationView::Report("resetting device"@),
    ]
}

/// What is done to the target so that the program runs there, in order.
pub fn operations_for(program: &Program) -> (operations: Vec<Operation>)
    ensures
        operations_view(operations@) == start_operations(
            loaded_view(program.sections@),
            optional_data(program.dotdata),
            program.registers,
        ),
{
    let ghost sections = loaded_view(program.sections@);
    let ghost dotdata = optional_data(program.dotdata);
    let ghost first = seq![OperationView::Report("flashing program .."@)];
    let registers: InitialRegisters = program.registers;
    let mut operations: Vec<Operation> = Vec::new();
    operations.push(Operation::Report("flashing program .."));
    if registers.vtor >= RAM_START {
        operations.push(Operation::ResetAndHalt);
        let ghost head = operations_view(operations@);
        let mut i: usize = 0;
        assert(operations_view(operations@) =~= head + sections.take(0).map_values(
            |section: SectionView| write_section(section),
        ));
        while i < program.sections.len()
            invariant
                i <= program.sections.len(),
                sections == loaded_view(program.sections@),
                operations_view(operations@) == head + sections.take(i as int).map_values(
                    |section: SectionView| write_section(section),
                ),
            decreases program.sections.len() - i,
        {
            let section: &Section = &program.sections[i];
            assert(sections[i as int] == section@);
            let ghost before = operations@;
            let words: Vec<u32> = slice_to_vec(section.data.as_slice());
            operations.push(Operation::WriteWords { address: section.start, words });
            assert(operations_view(operations@) =~= operations_view(before).push(
                write_section(section@),
            ));
            assert(sections.take(i + 1).map_values(
                |section: SectionView| write_section(section),
            ) =~= sections.take(i as int).map_values(
                |section: SectionView| write_section(section),
            ).push(write_section(section@)));
            i += 1;
        }
        assert(sections.take(i as int) =~= sections);
        if let Some(data) = &program.dotdata {
            let ghost before = operations@;
            let words: Vec<u32> = slice_to_vec(data.data.as_slice());
            operations.push(Operation::WriteWords { address: data.phys, words });
            assert(operations_view(operations@) =~= operations_view(before).push(
                OperationView::WriteWords { address: data.phys, words: data.data@ },
            ));
        }
        assert(operations_view(operations@) =~= head + write_memory(sections, dotdata));
        let ghost before = operations@;
        operations.push(Operation::WriteRegister { register: LR, value: LR_END });
        operations.push(Operation::WriteRegister { register: SP, value: registers.sp });
        operations.push(Operation::WriteRegister { register: PC, value: registers.pc });
        operations.push(Operation::WriteWord { address: VTOR, value: registers.vtor });
        operations.push(Operation::Report("DONE"));
        operations.push(Operation::Run);
        assert(operations_view(operations@) =~= operations_view(before) + write_registers(
            registers,
        ) + seq![OperationView::Report("DONE"@), OperationView::Run]);
        assert(head =~= first + seq![OperationView::ResetAndHalt]);
        assert(operations_view(operations@) =~= first + (seq![OperationView::ResetAndHalt]
            + write_memory(sections, dotdata) + write_registers(registers) + seq![
            OperationView::Report("DONE"@),
            OperationView::Run,
        ]));
    } else {
        operations.push(Operation::Download);
        operations.push(Operation::Report("DONE"));
        operations.push(Operation::Reset);
        assert(operations_view(operations@) =~= first + seq![
            OperationView::Download,
            OperationView::Report("DONE"@),
            OperationView::Reset,
        ]);
    }
    let ghost before = operations@;
    operations.push(Operation::Report("resetting device"));
    assert(operations_view(operations@) =~= operations_view(before) + seq![
        OperationView::Report("resetting device"@),
    ]);
    operations
}

// -------------------------------------------------------------------------------------------
// Laws.

/// What a target holds.
pub struct Machine {
    /// The core registers.
    pub registers: Map<u16, u32>,
    /// The words of the memory, by their addresses.
    pub memory: Map<int, u32>,
}

/// Whether a word that is written from `address` on is written to `at`.
pub open spec fn covers(address: u32, words: Seq<u32>, at: int) -> bool {
    address <= at < address + 4 * words.len() && (at - address) % 4 == 0
}

impl Machine {
    /// The target after something was written to it.
    pub open spec fn perform(self, operation: OperationView) -> Machine {
        match operation {
            OperationView::WriteWords { address, words } => Machine {
                memory: Map::new(
                    |at: int| self.memory.contains_key(at) || covers(address, words, at),
                    |at: int|
                        if covers(address, words, at) {
                            words[(at - address) / 4]
                        } else {
                            self.memory[at]
                        },
                ),
                ..self
            },
            OperationView::WriteRegister { register, value } => Machine {
                registers: self.registers.insert(register, value),
                ..self
            },
            OperationView::WriteWord { address, value } => Machine {
                memory: self.memory.insert(address as int, value),
                ..self
            },
            _ => self,
        }
    }

    /// The target after things were written to it, in order.
    pub open spec fn perform_all(self, operations: Seq<OperationView>) -> Machine
        decreases operations.len(),
    {
        if operations.len() == 0 {
            self
        } else {
            self.perform_all(operations.drop_last()).perform(operations.last())
        }
    }
}

/// The target after the memory and the registers of the program were written.
pub open spec fn prepared(
    machine: Machine,
    sections: Seq<SectionView>,
    dotdata: Option<DataView>,
    registers: InitialRegisters,
) -> Machine {
    machine.perform_all(write_memory(sections, dotdata)).perform_all(write_registers(registers))
}

/// A word is written last where no later section covers it.
proof fn lemma_sections(machine: Machine, sections: Seq<SectionView>, j: int, at: int)
    requires
        0 <= j < sections.len(),
        covers(sections[j].start, sections[j].data, at),
        forall|m: int|
            j < m < sections.len() ==> !covers(
                #[trigger] sections[m].start,
                sections[m].data,
                at,
            ),
    ensures
        ({
            let after = machine.perform_all(write_memory(sections, None));
            &&& after.memory.contains_key(at)
            &&& after.memory[at] == sections[j].data[(at - sections[j].start) / 4]
        }),
    decreases sections.len(),
{
    let last = sections.len() - 1;
    assert(write_memory(sections, None).drop_last() =~= write_memory(sections.drop_last(), None));
    assert(write_memory(sections, None).last() == write_section(sections[last]));
    if j < last {
        assert(!covers(sections[last].start, sections[last].data, at));
        lemma_sections(machine, sections.drop_last(), j, at);
    }
}

/// The registers are written one after the other.
proof fn lemma_registers(machine: Machine, registers: InitialRegisters)
    ensures
        machine.perform_all(write_registers(registers)).memory == machine.memory.insert(
            VTOR as int,
            registers.vtor,
        ),
        machine.perform_all(write_registers(registers)).registers == machine.registers.insert(
            LR,
            LR_END,
        ).insert(SP, registers.sp).insert(PC, registers.pc),
{
    let four = write_registers(registers);
    let three = four.drop_last();
    let two = three.drop_last();
    let one = two.drop_last();
    assert(one.drop_last() =~= seq![]);
    assert(four.last() == four[3] && three.last() == four[2] && two.last() == four[1] && one.last()
        == four[0]);
    assert(machine.perform_all(one.drop_last()) == machine);
    assert(machine.perform_all(one) == machine.perform(four[0]));
    assert(machine.perform_all(two) == machine.perform(four[0]).perform(four[1]));
    assert(machine.perform_all(three) == machine.perform(four[0]).perform(four[1]).perform(
        four[2],
    ));
}

/// A program in RAM is prepared as its file says, whatever the target held before: the link register
/// marks the end of the call stack, the stack pointer and the program counter are those of the
/// vector table, and the core is told where the vector table is.
pub proof fn law_registers_are_set(
    machine: Machine,
    sections: Seq<SectionView>,
    dotdata: Option<DataView>,
    registers: InitialRegisters,
)
    ensures
        ({
            let after = prepared(machine, sections, dotdata, registers);
            &&& after.registers.contains_pair(LR, LR_END)
            &&& after.registers.contains_pair(SP, registers.sp)
            &&& after.registers.contains_pair(PC, registers.pc)
            &&& after.memory.contains_pair(VTOR as int, registers.vtor)
        }),
{
    lemma_registers(machine.perform_all(write_memory(sections, dotdata)), registers);
}

/// A program in RAM has every word of `.data` at its physical address when it starts, but for one
/// that the address of the vector table is written over.
pub proof fn law_data_is_in_place(
    machine: Machine,
    sections: Seq<SectionView>,
    data: DataView,
    registers: InitialRegisters,
    k: int,
)
    requires
        0 <= k < data.data.len(),
        data.phys + 4 * k != VTOR,
    ensures
        prepared(machine, sections, Some(data), registers).memory.contains_pair(
            data.phys + 4 * k,
            data.data[k],
        ),
{
    let written = write_memory(sections, Some(data));
    assert(covers(data.phys, data.data, data.phys + 4 * k));
    assert(written.last() == (OperationView::WriteWords { address: data.phys, words: data.data }));
    lemma_registers(machine.perform_all(written), registers);
}

/// A program in RAM has every word of its sections in place when it starts, but for those that a
/// later section, `.data` or the address of the vector table is written over.
pub proof fn law_sections_are_in_place(
    machine: Machine,
    sections: Seq<SectionView>,
    dotdata: Option<DataView>,
    registers: InitialRegisters,
    j: int,
    k: int,
)
    requires
        0 <= j < sections.len(),
        0 <= k < sections[j].data.len(),
        sections[j].start + 4 * k != VTOR,
        dotdata matches Some(data) ==> !covers(data.phys, data.data, sections[j].start + 4 * k),
        forall|m: int|
            j < m < sections.len() ==> !covers(
                #[trigger] sections[m].start,
                sections[m].data,
                sections[j].start + 4 * k,
            ),
    ensures
        prepared(machine, sections, dotdata, registers).memory.contains_pair(
            sections[j].start + 4 * k,
            sections[j].data[k],
        ),
{
    let at = sections[j].start + 4 * k;
    assert(covers(sections[j].start, sections[j].data, at));
    lemma_sections(machine, sections, j, at);
    let written = write_memory(sections, dotdata);
    if dotdata is Some {
        assert(written.drop_last() =~= write_memory(sections, None));
    }
    lemma_registers(machine.perform_all(written), registers);
}

/// Nothing is written to the memory or the registers of a target for a program that lives in Flash.
pub proof fn law_flash_program_is_only_downloaded(
    sections: Seq<SectionView>,
    dotdata: Option<DataView>,
    registers: InitialRegisters,
)
    requires
        registers.vtor < RAM_START,
    ensures
        start_operations(sections, dotdata, registers) == seq![
            OperationView::Report("flashing program .."@),
            OperationView::Download,
            OperationView::Report("DONE"@),
            OperationView::Reset,
            OperationView::Report("resetting device"@),
        ],
{
    assert(start_operations(sections, dotdata, registers) =~= seq![
        OperationView::Report("flashing program .."@),
        OperationView::Download,
        OperationView::Report("DONE"@),
        OperationView::Reset,
        OperationView::Report("resetting device"@),
    ]);
}

/// A program that lives in RAM is written to a halted core, and runs only after that.
pub proof fn law_ram_program_is_written_before_it_runs(
    sections: Seq<SectionView>,
    dotdata: Option<DataView>,
    registers: InitialRegisters,
    i: int,
)
    requires
        registers.vtor >= RAM_START,
        0 <= i < start_operations(sections, dotdata, registers).len(),
    ensures
        ({
            let operations = start_operations(sections, dotdata, registers);
            let written = operations[i] is WriteWords || operations[i] is WriteRegister
                || operations[i] is WriteWord;
            &&& operations[1] is ResetAndHalt
            &&& operations[operations.len() - 2] is Run
            &&& written ==> 1 < i < operations.len() - 2
            &&& operations[i] is Run ==> i == operations.len() - 2
        }),
{
    let operations = start_operations(sections, dotdata, registers);
    let memory = write_memory(sections, dotdata);
    assert forall|m: int| 0 <= m < memory.len() implies #[trigger] memory[m] is WriteWords by {}
    assert(operations.len() == memory.len() + 9);
    if 2 <= i < memory.len() + 2 {
        assert(operations[i] == memory[i - 2]);
    }
}

/// What is done after each other is done by one and then by the other.
proof fn lemma_perform_both(machine: Machine, a: Seq<OperationView>, b: Seq<OperationView>)
    ensures
        machine.perform_all(a + b) == machine.perform_all(a).perform_all(b),
    decreases b.len(),
{
    if b.len() == 0 {
        assert(a + b =~= a);
    } else {
        lemma_perform_both(machine, a, b.drop_last());
        assert((a + b).drop_last() =~= a + b.drop_last());
    }
}

/// What is done to a target for a program in RAM, all of it, leaves the target prepared for the program:
/// with its sections, with `.data` if it has some, and with its registers.
pub proof fn law_operations_prepare_the_target(
    machine: Machine,
    sections: Seq<SectionView>,
    dotdata: Option<DataView>,
    registers: InitialRegisters,
)
    requires
        registers.vtor >= 0x2000_0000,
    ensures
        machine.perform_all(start_operations(sections, dotdata, registers)) == prepared(
            machine,
            sections,
            dotdata,
            registers,
        ),
{
    let report = seq![OperationView::Report("flashing program .."@)];
    let halt = seq![OperationView::ResetAndHalt];
    let run = seq![OperationView::Report("DONE"@), OperationView::Run];
    let last = seq![OperationView::Report("resetting device"@)];
    let written = write_memory(sections, dotdata);
    let set = write_registers(registers);
    let operations = start_operations(sections, dotdata, registers);
    assert(operations =~= report + halt + written + set + run + last);
    lemma_perform_both(machine, report + halt + written + set + run, last);
    lemma_perform_both(machine, report + halt + written + set, run);
    lemma_perform_both(machine, report + halt + written, set);
    lemma_perform_both(machine, report + halt, written);
    reveal_with_fuel(Machine::perform_all, 3);
    assert((report + halt).drop_last() =~= report);
    assert(machine.perform_all(report + halt) == machine);
    let done = machine.perform_all(report + halt + written + set);
    assert(run.drop_last() =~= seq![OperationView::Report("DONE"@)]);
    assert(done.perform_all(run) == done);
    assert(done.perform_all(last) == done);
}

/// A program in RAM starts with the registers that its vector table gives, whatever the target held.
pub proof fn law_program_starts_with_its_registers(
    machine: Machine,
    sections: Seq<SectionView>,
    dotdata: Option<DataView>,
    registers: InitialRegisters,
)
    requires
        registers.vtor >= 0x2000_0000,
    ensures
        ({
            let after = machine.perform_all(start_operations(sections, dotdata, registers));
            &&& after.registers == machine.registers.insert(14u16, 0xffff_ffffu32).insert(
                13u16,
                registers.sp,
            ).insert(15u16, registers.pc)
            &&& after.memory.contains_pair(0xE000_ED08, registers.vtor)
        }),
{
    law_operations_prepare_the_target(machine, sections, dotdata, registers);
    let written = write_memory(sections, dotdata);
    assert forall|i: int| 0 <= i < written.len() implies #[trigger] written[i] is WriteWords by {}
    lemma_words_keep_registers(machine, written);
    lemma_registers(machine.perform_all(written), registers);
}

/// Words that are written to the memory leave the registers as they are.
proof fn lemma_words_keep_registers(machine: Machine, operations: Seq<OperationView>)
    requires
        forall|i: int| 0 <= i < operations.len() ==> #[trigger] operations[i] is WriteWords,
    ensures
        machine.perform_all(operations).registers == machine.registers,
    decreases operations.len(),
{
    if operations.len() > 0 {
        assert(operations[operations.len() - 1] is WriteWords);
        lemma_words_keep_registers(machine, operations.drop_last());
    }
}

/// A program in RAM starts with every word of every section at its address, but for those that a later
/// section, `.data` or the address of the vector table is written over.
pub proof fn law_program_starts_with_its_sections(
    machine: Machine,
    sections: Seq<SectionView>,
    dotdata: Option<DataView>,
    registers: InitialRegisters,
    j: int,
    k: int,
)
    requires
        registers.vtor >= 0x2000_0000,
        0 <= j < sections.len(),
        0 <= k < sections[j].data.len(),
        sections[j].start + 4 * k != 0xE000_ED08,
        dotdata matches Some(data) ==> forall|i: int|
            0 <= i < data.data.len() ==> data.phys + #[trigger] (4 * i) != sections[j].start + 4 * k,
        forall|m: int, i: int|
            j < m < sections.len() && 0 <= i < sections[m].data.len()
                ==> #[trigger] sections[m].start + #[trigger] (4 * i) != sections[j].start + 4 * k,
    ensures
        machine.perform_all(start_operations(sections, dotdata, registers)).memory.contains_pair(
            sections[j].start + 4 * k,
            sections[j].data[k],
        ),
{
    let at = sections[j].start + 4 * k;
    if dotdata is Some && covers(dotdata->Some_0.phys, dotdata->Some_0.data, at) {
        let i = (at - dotdata->Some_0.phys) / 4;
        assert(dotdata->Some_0.phys + (4 * i) == at);
    }
    assert forall|m: int| j < m < sections.len() implies !covers(
        #[trigger] sections[m].start,
        sections[m].data,
        at,
    ) by {
        if covers(sections[m].start, sections[m].data, at) {
            let i = (at - sections[m].start) / 4;
            assert(sections[m].start + (4 * i) == at);
        }
    }
    law_operations_prepare_the_target(machine, sections, dotdata, registers);
    law_sections_are_in_place(machine, sections, dotdata, registers, j, k);
}

/// A program in RAM starts with every word of `.data` at its physical address, but for one that the
/// address of the vector table is written over.
pub proof fn law_program_starts_with_its_data(
    machine: Machine,
    sections: Seq<SectionView>,
    data: DataView,
    registers: InitialRegisters,
    k: int,
)
    requires
        registers.vtor >= 0x2000_0000,
        0 <= k < data.data.len(),
        data.phys + 4 * k != 0xE000_ED08,
    ensures
        machine.perform_all(
            start_operations(sections, Some(data), registers),
        ).memory.contains_pair(data.phys + 4 * k, data.data[k]),
{
    law_operations_prepare_the_target(machine, sections, Some(data), registers);
    law_data_is_in_place(machine, sections, data, registers, k);
}

/// Nothing is written for a program in RAM but its sections, `.data` and the address of the vector
/// table.
pub proof fn law_nothing_else_is_written(
    machine: Machine,
    sections: Seq<SectionView>,
    dotdata: Option<DataView>,
    registers: InitialRegisters,
    at: int,
)
    requires
        registers.vtor >= 0x2000_0000,
        at != 0xE000_ED08,
        forall|m: int|
            0 <= m < sections.len() ==> !(sections[m].start <= at < #[trigger] sections[m].start + 4
                * sections[m].data.len()),
        dotdata matches Some(data) ==> !(data.phys <= at < data.phys + 4 * data.data.len()),
    ensures
        ({
            let after = machine.perform_all(start_operations(sections, dotdata, registers));
            &&& after.memory.contains_key(at) == machine.memory.contains_key(at)
            &&& machine.memory.contains_key(at) ==> after.memory[at] == machine.memory[at]
        }),
{
    law_operations_prepare_the_target(machine, sections, dotdata, registers);
    let written = write_memory(sections, dotdata);
    assert forall|m: int| 0 <= m < sections.len() implies !covers(
        #[trigger] sections[m].start,
        sections[m].data,
        at,
    ) by {
        let unused = sections[m].start + 4 * sections[m].data.len();
    }
    lemma_untouched(machine, sections, at);
    if dotdata is Some {
        assert(written.drop_last() =~= write_memory(sections, None));
    }
    lemma_registers(machine.perform_all(written), registers);
}

/// A word that no section covers stays as it is.
proof fn lemma_untouched(machine: Machine, sections: Seq<SectionView>, at: int)
    requires
        forall|m: int|
            0 <= m < sections.len() ==> !covers(#[trigger] sections[m].start, sections[m].data, at),
    ensures
        ({
            let after = machine.perform_all(write_memory(sections, None));
            &&& after.memory.contains_key(at) == machine.memory.contains_key(at)
            &&& machine.memory.contains_key(at) ==> after.memory[at] == machine.memory[at]
        }),
    decreases sections.len(),
{
    if sections.len() > 0 {
        let last = sections.len() - 1;
        assert(write_memory(sections, None).drop_last() =~= write_memory(
            sections.drop_last(),
            None,
        ));
        assert(write_memory(sections, None).last() == write_section(sections[last]));
        assert(!covers(sections[last].start, sections[last].data, at));
        assert forall|m: int| 0 <= m < sections.drop_last().len() implies !covers(
            #[trigger] sections.drop_last()[m].start,
            sections.drop_last()[m].data,
            at,
        ) by {
            assert(!covers(sections[m].start, sections[m].data, at));
        }
        lemma_untouched(machine, sections.drop_last(), at);
    }
}

/// Where a program lives is told by the address of its vector table: below the start of RAM it is
/// downloaded and the core is reset, and otherwise the core is halted for it and then runs it. The
/// user is told in the same words.
pub proof fn law_vector_table_tells_where_a_program_lives(
    sections: Seq<SectionView>,
    dotdata: Option<DataView>,
    registers: InitialRegisters,
)
    ensures
        ({
            let operations = start_operations(sections, dotdata, registers);
            let n = operations.len() as int;
            &&& n >= 5
            &&& operations[0] == OperationView::Report("flashing program .."@)
            &&& operations[n - 3] == OperationView::Report("DONE"@)
            &&& operations[n - 1] == OperationView::Report("resetting device"@)
            &&& if registers.vtor < 0x2000_0000 {
                &&& n == 5
                &&& operations[1] is Download
                &&& operations[3] is Reset
            } else {
                &&& operations[1] is ResetAndHalt
                &&& operations[n - 2] is Run
                &&& forall|i: int|
                    0 <= i < n ==> !(#[trigger] operations[i] is Download) && !(operations[i] is Reset)
            }
        }),
{
    let operations = start_operations(sections, dotdata, registers);
    if registers.vtor >= 0x2000_0000 {
        assert forall|i: int| 0 <= i < operations.len() implies !(#[trigger] operations[i] is Download)
            && !(operations[i] is Reset) by {
            law_ram_program_is_written_before_it_runs(sections, dotdata, registers, i);
            let written = write_memory(sections, dotdata);
            if 2 <= i < 2 + written.len() {
                assert(operations[i] == written[i - 2]);
                assert(written[i - 2] is WriteWords);
            }
        }
    }
}

/// For a program in RAM each section is written once, in order, right after the core is halted, then
/// `.data` if there is some, and then the three registers and the address of the vector table.
pub proof fn law_each_section_is_written_once(
    sections: Seq<SectionView>,
    dotdata: Option<DataView>,
    registers: InitialRegisters,
    j: int,
)
    requires
        registers.vtor >= 0x2000_0000,
    ensures
        ({
            let operations = start_operations(sections, dotdata, registers);
            let n = operations.len() as int;
            &&& n == sections.len() + if dotdata is Some {
                10int
            } else {
                9
            }
            &&& 0 <= j < sections.len() ==> operations[2 + j] == (OperationView::WriteWords {
                address: sections[j].start,
                words: sections[j].data,
            })
            &&& dotdata matches Some(data) ==> operations[n - 8] == (OperationView::WriteWords {
                address: data.phys,
                words: data.data,
            })
            &&& operations[n - 7] == (OperationView::WriteRegister {
                register: 14,
                value: 0xffff_ffff,
            })
            &&& operations[n - 6] == (OperationView::WriteRegister {
                register: 13,
                value: registers.sp,
            })
            &&& operations[n - 5] == (OperationView::WriteRegister {
                register: 15,
                value: registers.pc,
            })
            &&& operations[n - 4] == (OperationView::WriteWord {
                address: 0xE000_ED08,
                value: registers.vtor,
            })
        }),
{
    let operations = start_operations(sections, dotdata, registers);
    let written = write_memory(sections, dotdata);
    if 0 <= j < sections.len() {
        assert(operations[2 + j] == written[j]);
    }
}

} // verus!

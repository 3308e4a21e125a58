//! The registers that the core puts on the stack when it enters an exception.
use vstd::prelude::*;

verus! {

/// Number of 32-bit words stacked in a basic frame.
pub const WORDS_BASIC: usize = 8;

/// Number of 32-bit words stacked in an extended frame: 16 FPU registers and 1 status word more.
pub const WORDS_EXTENDED: usize = WORDS_BASIC + 17;

/// The floating point registers of an extended frame. The sixteen values are those of
/// single-precision numbers, as their bits.
#[derive(Clone, Copy, PartialEq, Eq, Debug, Structural)]
pub struct StackedFpuRegs {
    pub s0: u32,
    pub s1: u32,
    pub s2: u32,
    pub s3: u32,
    pub s4: u32,
    pub s5: u32,
    pub s6: u32,
    pub s7: u32,
    pub s8: u32,
    pub s9: u32,
    pub s10: u32,
    pub s11: u32,
    pub s12: u32,
    pub s13: u32,
    pub s14: u32,
    pub s15: u32,
    pub fpscr: u32,
}

/// Registers stacked on exception entry.
#[derive(Clone, Copy, PartialEq, Eq, Debug, Structural)]
pub struct Stacked {
    pub r0: u32,
    pub r1: u32,
    pub r2: u32,
    pub r3: u32,
    pub r12: u32,
    pub lr: u32,
    pub pc: u32,
    pub xpsr: u32,
    pub fpu_regs: Option<StackedFpuRegs>,
}

/// Number of words that are stacked, with and without the floating point registers.
pub open spec fn frame_words(fpu: bool) -> nat {
    if fpu {
        WORDS_EXTENDED as nat
    } else {
        WORDS_BASIC as nat
    }
}

/// The floating point registers as the words of an extended frame give them.
pub open spec fn fpu_regs_of(words: Seq<u32>) -> StackedFpuRegs {
    StackedFpuRegs {
        s0: words[8],
        s1: words[9],
        s2: words[10],
        s3: words[11],
        s4: words[12],
        s5: words[13],
        s6: words[14],
        s7: words[15],
        s8: words[16],
        s9: words[17],
        s10: words[18],
        s11: words[19],
        s12: words[20],
        s13: words[21],
        s14: words[22],
        s15: words[23],
        fpscr: words[24],
    }
}

/// The registers as the words on the stack give them.
pub open spec fn stacked_of(words: Seq<u32>, fpu: bool) -> Stacked {
    Stacked {
        r0: words[0],
        r1: words[1],
        r2: words[2],
        r3: words[3],
        r12: words[4],
        lr: words[5],
        pc: words[6],
        xpsr: words[7],
        fpu_regs: if fpu {
            Some(fpu_regs_of(words))
        } else {
            None
        },
    }
}

impl Stacked {
    /// Number of words to read from the stack.
    pub fn words(fpu: bool) -> (count: usize)
        ensures
            count == frame_words(fpu),
    {
        if fpu {
            WORDS_EXTENDED
        } else {
            WORDS_BASIC
        }
    }

    /// The registers as the words read from the stack give them.
    pub fn read(words: &Vec<u32>, fpu: bool) -> (stacked: Self)
        requires
            words@.len() == frame_words(fpu),
        ensures
            stacked == stacked_of(words@, fpu),
    {
        Stacked {
            r0: words[0],
            r1: words[1],
            r2: words[2],
            r3: words[3],
            r12: words[4],
            lr: words[5],
            pc: words[6],
            xpsr: words[7],
            fpu_regs: if fpu {
                Some(
                    StackedFpuRegs {
                        s0: words[8],
                        s1: words[9],
                        s2: words[10],
                        s3: words[11],
                        s4: words[12],
                        s5: words[13],
                        s6: words[14],
                        s7: words[15],
                        s8: words[16],
                        s9: words[17],
                        s10: words[18],
                        s11: words[19],
                        s12: words[20],
                        s13: words[21],
                        s14: words[22],
                        s15: words[23],
                        fpscr: words[24],
                    },
                )
            } else {
                None
            },
        }
    }

    /// The in-memory size of these stacked registers, in bytes.
    pub open spec fn size_spec(self) -> int {
        if self.fpu_regs is None {
            4 * WORDS_BASIC
        } else {
            4 * WORDS_EXTENDED
        }
    }

    /// Returns the in-memory size of these stacked registers, in Bytes.
    pub fn size(&self) -> (bytes: u32)
        ensures
            bytes == self.size_spec(),
    {
        let num_words: usize = if self.fpu_regs.is_none() {
            WORDS_BASIC
        } else {
            WORDS_EXTENDED
        };
        num_words as u32 * 4
    }
}

/// The size of stacked registers is that of the words that they were read from.
pub proof fn law_size_is_that_of_the_words(words: Seq<u32>, fpu: bool)
    requires
        words.len() == frame_words(fpu),
    ensures
        stacked_of(words, fpu).size_spec() == 4 * words.len(),
{
}

/// A frame is as long as the registers that are stacked: eight words, and with the floating point
/// registers seventeen more.
pub proof fn law_frames_are_as_long_as_their_registers(words: Seq<u32>, fpu: bool)
    ensures
        frame_words(fpu) == if fpu {
            25nat
        } else {
            8
        },
        stacked_of(words, fpu).size_spec() == if fpu {
            100int
        } else {
            32
        },
{
}

/// The registers, put in the order in which the core stacks them, are the words that they were read
/// from.
pub proof fn law_stacked_registers_are_the_words(words: Seq<u32>, fpu: bool)
    requires
        words.len() == if fpu {
            25nat
        } else {
            8
        },
    ensures
        ({
            let s = stacked_of(words, fpu);
            let basic = seq![s.r0, s.r1, s.r2, s.r3, s.r12, s.lr, s.pc, s.xpsr];
            match s.fpu_regs {
                None => !fpu && words == basic,
                Some(f) => fpu && words == basic + seq![
                    f.s0, f.s1, f.s2, f.s3, f.s4, f.s5, f.s6, f.s7, f.s8, f.s9, f.s10, f.s11,
                    f.s12, f.s13, f.s14, f.s15, f.fpscr,
                ],
            }
        }),
{
    let s = stacked_of(words, fpu);
    let basic = seq![s.r0, s.r1, s.r2, s.r3, s.r12, s.lr, s.pc, s.xpsr];
    if fpu {
        let f = s.fpu_regs->Some_0;
        assert(words =~= basic + seq![
            f.s0, f.s1, f.s2, f.s3, f.s4, f.s5, f.s6, f.s7, f.s8, f.s9, f.s10, f.s11, f.s12, f.s13,
            f.s14, f.s15, f.fpscr,
        ]);
    } else {
        assert(words =~= basic);
    }
}

} // verus!

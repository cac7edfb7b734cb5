//! The register file: 32 general-purpose 32-bit registers addressed by
//! canonical MIPS names, looked up case-insensitively. `zero` always reads
//! as 0 and rejects writes; the kernel-reserved `k0` and `k1` reject writes
//! as well.

use vstd::prelude::*;

verus! {

/// A rejected register write.
#[derive(Debug, PartialEq, Eq, Structural, Clone, Copy)]
pub enum MemoryError {
    /// Reserved for a dedicated `zero`-write signal; no operation returns it.
    WriteToZero,
    /// The register is not intended to be written (`zero`, `k0`, `k1`).
    WriteNotIntended,
}

/// The 32 general-purpose registers, in their conventional numbering order.
#[derive(Debug, PartialEq, Eq, Structural, Clone, Copy)]
pub enum RegisterCodes {
    Rzero,
    Rat,
    Rv0,
    Rv1,
    Ra0,
    Ra1,
    Ra2,
    Ra3,
    Rt0,
    Rt1,
    Rt2,
    Rt3,
    Rt4,
    Rt5,
    Rt6,
    Rt7,
    Rs0,
    Rs1,
    Rs2,
    Rs3,
    Rs4,
    Rs5,
    Rs6,
    Rs7,
    Rt8,
    Rt9,
    Rk0,
    Rk1,
    Rgp,
    Rsp,
    Rfp,
    Rra,
}

/// The index of a register in the backing array, following the
/// conventional register numbering.
pub open spec fn reg_index(reg: RegisterCodes) -> int {
    match reg {
        RegisterCodes::Rzero => 0,
        RegisterCodes::Rat => 1,
        RegisterCodes::Rv0 => 2,
        RegisterCodes::Rv1 => 3,
        RegisterCodes::Ra0 => 4,
        RegisterCodes::Ra1 => 5,
        RegisterCodes::Ra2 => 6,
        RegisterCodes::Ra3 => 7,
        RegisterCodes::Rt0 => 8,
        RegisterCodes::Rt1 => 9,
        RegisterCodes::Rt2 => 10,
        RegisterCodes::Rt3 => 11,
        RegisterCodes::Rt4 => 12,
        RegisterCodes::Rt5 => 13,
        RegisterCodes::Rt6 => 14,
        RegisterCodes::Rt7 => 15,
        RegisterCodes::Rs0 => 16,
        RegisterCodes::Rs1 => 17,
        RegisterCodes::Rs2 => 18,
        RegisterCodes::Rs3 => 19,
        RegisterCodes::Rs4 => 20,
        RegisterCodes::Rs5 => 21,
        RegisterCodes::Rs6 => 22,
        RegisterCodes::Rs7 => 23,
        RegisterCodes::Rt8 => 24,
        RegisterCodes::Rt9 => 25,
        RegisterCodes::Rk0 => 26,
        RegisterCodes::Rk1 => 27,
        RegisterCodes::Rgp => 28,
        RegisterCodes::Rsp => 29,
        RegisterCodes::Rfp => 30,
        RegisterCodes::Rra => 31,
    }
}

/// ASCII lowercasing of one character; everything but `A`..`Z` is left as
/// it is.
pub open spec fn lower_char(c: char) -> char {
    match c {
        'A' => 'a',
        'B' => 'b',
        'C' => 'c',
        'D' => 'd',
        'E' => 'e',
        'F' => 'f',
        'G' => 'g',
        'H' => 'h',
        'I' => 'i',
        'J' => 'j',
        'K' => 'k',
        'L' => 'l',
        'M' => 'm',
        'N' => 'n',
        'O' => 'o',
        'P' => 'p',
        'Q' => 'q',
        'R' => 'r',
        'S' => 's',
        'T' => 't',
        'U' => 'u',
        'V' => 'v',
        'W' => 'w',
        'X' => 'x',
        'Y' => 'y',
        'Z' => 'z',
        _ => c,
    }
}

/// ASCII lowercasing of a whole character sequence.
pub open spec fn lower(s: Seq<char>) -> Seq<char> {
    Seq::new(s.len(), |i: int| lower_char(s[i]))
}

/// The register a name denotes, after ASCII lowercasing; an unknown name
/// denotes none.
pub open spec fn spec_code_to_register(s: Seq<char>) -> Option<RegisterCodes> {
    let l = lower(s);
    if l == "zero"@ {
        Some(RegisterCodes::Rzero)
    } else if l == "at"@ {
        Some(RegisterCodes::Rat)
    } else if l == "v0"@ {
        Some(RegisterCodes::Rv0)
    } else if l == "v1"@ {
        Some(RegisterCodes::Rv1)
    } else if l == "a0"@ {
        Some(RegisterCodes::Ra0)
    } else if l == "a1"@ {
        Some(RegisterCodes::Ra1)
    } else if l == "a2"@ {
        Some(RegisterCodes::Ra2)
    } else if l == "a3"@ {
        Some(RegisterCodes::Ra3)
    } else if l == "t0"@ {
        Some(RegisterCodes::Rt0)
    } else if l == "t1"@ {
        Some(RegisterCodes::Rt1)
    } else if l == "t2"@ {
        Some(RegisterCodes::Rt2)
    } else if l == "t3"@ {
        Some(RegisterCodes::Rt3)
    } else if l == "t4"@ {
        Some(RegisterCodes::Rt4)
    } else if l == "t5"@ {
        Some(RegisterCodes::Rt5)
    } else if l == "t6"@ {
        Some(RegisterCodes::Rt6)
    } else if l == "t7"@ {
        Some(RegisterCodes::Rt7)
    } else if l == "s0"@ {
        Some(RegisterCodes::Rs0)
    } else if l == "s1"@ {
        Some(RegisterCodes::Rs1)
    } else if l == "s2"@ {
        Some(RegisterCodes::Rs2)
    } else if l == "s3"@ {
        Some(RegisterCodes::Rs3)
    } else if l == "s4"@ {
        Some(RegisterCodes::Rs4)
    } else if l == "s5"@ {
        Some(RegisterCodes::Rs5)
    } else if l == "s6"@ {
        Some(RegisterCodes::Rs6)
    } else if l == "s7"@ {
        Some(RegisterCodes::Rs7)
    } else if l == "t8"@ {
        Some(RegisterCodes::Rt8)
    } else if l == "t9"@ {
        Some(RegisterCodes::Rt9)
    } else if l == "k0"@ {
        Some(RegisterCodes::Rk0)
    } else if l == "k1"@ {
        Some(RegisterCodes::Rk1)
    } else if l == "gp"@ {
        Some(RegisterCodes::Rgp)
    } else if l == "sp"@ {
        Some(RegisterCodes::Rsp)
    } else if l == "fp"@ {
        Some(RegisterCodes::Rfp)
    } else if l == "ra"@ {
        Some(RegisterCodes::Rra)
    } else {
        None
    }
}

/// Registers that reject writes: `zero` is hard-wired and `k0`, `k1` are
/// kernel-reserved.
pub open spec fn write_rejected(reg: RegisterCodes) -> bool {
    ||| reg == RegisterCodes::Rzero
    ||| reg == RegisterCodes::Rk0
    ||| reg == RegisterCodes::Rk1
}

/// What a register read returns: 0 for `zero` regardless of stored state,
/// else the stored value.
pub open spec fn spec_get_register(regs: Seq<u32>, reg: RegisterCodes) -> u32 {
    if reg == RegisterCodes::Rzero {
        0
    } else {
        regs[reg_index(reg)]
    }
}

/// ASCII lowercasing of one character.
fn to_lower(c: char) -> (r: char)
    ensures
        r == lower_char(c),
{
    match c {
        'A' => 'a',
        'B' => 'b',
        'C' => 'c',
        'D' => 'd',
        'E' => 'e',
        'F' => 'f',
        'G' => 'g',
        'H' => 'h',
        'I' => 'i',
        'J' => 'j',
        'K' => 'k',
        'L' => 'l',
        'M' => 'm',
        'N' => 'n',
        'O' => 'o',
        'P' => 'p',
        'Q' => 'q',
        'R' => 'r',
        'S' => 's',
        'T' => 't',
        'U' => 'u',
        'V' => 'v',
        'W' => 'w',
        'X' => 'x',
        'Y' => 'y',
        'Z' => 'z',
        _ => c,
    }
}

/// Whether `code`, lowercased, spells exactly `name`.
fn eq_lowered(code: &str, name: &str) -> (r: bool)
    ensures
        r == (lower(code@) == name@),
{
    let n = code.unicode_len();
    if n != name.unicode_len() {
        assert(lower(code@).len() == code@.len());
        return false;
    }
    let mut i: usize = 0;
    while i < n
        invariant
            i <= n,
            n == code@.len(),
            n == name@.len(),
            forall|k: int| 0 <= k < i as int ==> lower_char(code@[k]) == name@[k],
        decreases n - i,
    {
        if to_lower(code.get_char(i)) != name.get_char(i) {
            assert(lower(code@)[i as int] != name@[i as int]);
            return false;
        }
        i = i + 1;
    }
    proof {
        assert(lower(code@) =~= name@);
    }
    true
}

/// The register file: 32 general-purpose 32-bit registers, created
/// zero-initialized and mutated only through `set_register`.
pub struct Registers {
    registers: Vec<u32>,
}

impl View for Registers {
    type V = Seq<u32>;

    closed spec fn view(&self) -> Seq<u32> {
        self.registers@
    }
}

impl Registers {
    /// Well-formed: one stored value per register.
    pub open spec fn wf(&self) -> bool {
        self@.len() == 32
    }

    /// A register file with every register zero-initialized.
    pub fn new() -> (r: Registers)
        ensures
            r.wf(),
            r@ == Seq::new(32, |i: int| 0u32),
    {
        let registers = vec![0u32; 32];
        let r = Registers { registers };
        proof {
            assert(r@ =~= Seq::new(32, |i: int| 0u32));
        }
        r
    }

    /// The register a name denotes, looked up case-insensitively; an
    /// unknown name yields `None` rather than an error.
    pub fn code_to_register(code: &str) -> (r: Option<RegisterCodes>)
        ensures
            r == spec_code_to_register(code@),
    {
        if eq_lowered(code, "zero") {
            Some(RegisterCodes::Rzero)
        } else if eq_lowered(code, "at") {
            Some(RegisterCodes::Rat)
        } else if eq_lowered(code, "v0") {
            Some(RegisterCodes::Rv0)
        } else if eq_lowered(code, "v1") {
            Some(RegisterCodes::Rv1)
        } else if eq_lowered(code, "a0") {
            Some(RegisterCodes::Ra0)
        } else if eq_lowered(code, "a1") {
            Some(RegisterCodes::Ra1)
        } else if eq_lowered(code, "a2") {
            Some(RegisterCodes::Ra2)
        } else if eq_lowered(code, "a3") {
            Some(RegisterCodes::Ra3)
        } else if eq_lowered(code, "t0") {
            Some(RegisterCodes::Rt0)
        } else if eq_lowered(code, "t1") {
            Some(RegisterCodes::Rt1)
        } else if eq_lowered(code, "t2") {
            Some(RegisterCodes::Rt2)
        } else if eq_lowered(code, "t3") {
            Some(RegisterCodes::Rt3)
        } else if eq_lowered(code, "t4") {
            Some(RegisterCodes::Rt4)
        } else if eq_lowered(code, "t5") {
            Some(RegisterCodes::Rt5)
        } else if eq_lowered(code, "t6") {
            Some(RegisterCodes::Rt6)
        } else if eq_lowered(code, "t7") {
            Some(RegisterCodes::Rt7)
        } else if eq_lowered(code, "s0") {
            Some(RegisterCodes::Rs0)
        } else if eq_lowered(code, "s1") {
            Some(RegisterCodes::Rs1)
        } else if eq_lowered(code, "s2") {
            Some(RegisterCodes::Rs2)
        } else if eq_lowered(code, "s3") {
            Some(RegisterCodes::Rs3)
        } else if eq_lowered(code, "s4") {
            Some(RegisterCodes::Rs4)
        } else if eq_lowered(code, "s5") {
            Some(RegisterCodes::Rs5)
        } else if eq_lowered(code, "s6") {
            Some(RegisterCodes::Rs6)
        } else if eq_lowered(code, "s7") {
            Some(RegisterCodes::Rs7)
        } else if eq_lowered(code, "t8") {
            Some(RegisterCodes::Rt8)
        } else if eq_lowered(code, "t9") {
            Some(RegisterCodes::Rt9)
        } else if eq_lowered(code, "k0") {
            Some(RegisterCodes::Rk0)
        } else if eq_lowered(code, "k1") {
            Some(RegisterCodes::Rk1)
        } else if eq_lowered(code, "gp") {
            Some(RegisterCodes::Rgp)
        } else if eq_lowered(code, "sp") {
            Some(RegisterCodes::Rsp)
        } else if eq_lowered(code, "fp") {
            Some(RegisterCodes::Rfp)
        } else if eq_lowered(code, "ra") {
            Some(RegisterCodes::Rra)
        } else {
            None
        }
    }

    /// The index of a register in the backing array.
    fn register_to_index(reg: &RegisterCodes) -> (r: usize)
        ensures
            r as int == reg_index(*reg),
            r < 32,
    {
        match reg {
            RegisterCodes::Rzero => 0,
            RegisterCodes::Rat => 1,
            RegisterCodes::Rv0 => 2,
            RegisterCodes::Rv1 => 3,
            RegisterCodes::Ra0 => 4,
            RegisterCodes::Ra1 => 5,
            RegisterCodes::Ra2 => 6,
            RegisterCodes::Ra3 => 7,
            RegisterCodes::Rt0 => 8,
            RegisterCodes::Rt1 => 9,
            RegisterCodes::Rt2 => 10,
            RegisterCodes::Rt3 => 11,
            RegisterCodes::Rt4 => 12,
            RegisterCodes::Rt5 => 13,
            RegisterCodes::Rt6 => 14,
            RegisterCodes::Rt7 => 15,
            RegisterCodes::Rs0 => 16,
            RegisterCodes::Rs1 => 17,
            RegisterCodes::Rs2 => 18,
            RegisterCodes::Rs3 => 19,
            RegisterCodes::Rs4 => 20,
            RegisterCodes::Rs5 => 21,
            RegisterCodes::Rs6 => 22,
            RegisterCodes::Rs7 => 23,
            RegisterCodes::Rt8 => 24,
            RegisterCodes::Rt9 => 25,
            RegisterCodes::Rk0 => 26,
            RegisterCodes::Rk1 => 27,
            RegisterCodes::Rgp => 28,
            RegisterCodes::Rsp => 29,
            RegisterCodes::Rfp => 30,
            RegisterCodes::Rra => 31,
        }
    }

    /// Reads a register; always succeeds. `zero` is hard-wired to 0
    /// regardless of stored state.
    pub fn get_register(&self, reg: &RegisterCodes) -> (r: Result<u32, MemoryError>)
        requires
            self.wf(),
        ensures
            r == Ok::<u32, MemoryError>(spec_get_register(self@, *reg)),
    {
        if matches!(reg, RegisterCodes::Rzero) {
            return Ok(0);
        }
        Ok(self.registers[Registers::register_to_index(reg)])
    }

    /// Writes a register. Writes to `zero`, `k0` and `k1` are rejected with
    /// `WriteNotIntended` and leave every register unchanged; all other
    /// registers store the raw 32-bit value unconditionally.
    pub fn set_register(&mut self, reg: &RegisterCodes, val: u32) -> (r: Result<(), MemoryError>)
        requires
            old(self).wf(),
        ensures
            final(self).wf(),
            if write_rejected(*reg) {
                &&& r == Err::<(), MemoryError>(MemoryError::WriteNotIntended)
                &&& final(self)@ == old(self)@
            } else {
                &&& r == Ok::<(), MemoryError>(())
                &&& final(self)@ == old(self)@.update(reg_index(*reg), val)
            },
    {
        match reg {
            RegisterCodes::Rzero | RegisterCodes::Rk0 | RegisterCodes::Rk1 => {
                return Err(MemoryError::WriteNotIntended);
            },
            _ => {},
        }
        let index = Registers::register_to_index(reg);
        self.registers[index] = val;
        Ok(())
    }
}

/// The running interpreter state handed to the execution engine.
pub struct Runtime {
    pub registers: Registers,
}

} // verus!

use vstd::prelude::*;

use crate::command_parser::parse_spec;
use crate::fault::{Comparison, Fault};
use crate::mixcomputer::MIXComputer;
use std::io::Write;
use crate::mixword::{
    pack_word, range_slice, w_b3, w_b4, w_b5, w_byte, w_m, w_mag, w_sign, w_val,
    compose_word, int_abs, lemma_sign_mag_bounds, MIXWord,
};

verus! {

use vstd::arithmetic::power2::pow2;

/// The largest valid memory address.
pub const MEMORY_MAX: usize = 3999;

/// The power of two with the given exponent, as a 64-bit value.
fn pow2_u64(k: u64) -> (r: u64)
    requires
        k <= 62,
    ensures
        r == pow2(k as nat),
        r >= 1,
{
    let mut r: u64 = 1;
    let mut i: u64 = 0;
    proof {
        vstd::arithmetic::power2::lemma2_to64();
    }
    while i < k
        invariant
            i <= k,
            k <= 62,
            r == pow2(i as nat),
        decreases k - i,
    {
        proof {
            vstd::arithmetic::power2::lemma_pow2_strictly_increases(i as nat, 62);
            vstd::arithmetic::power2::lemma2_to64_rest();
            vstd::arithmetic::power2::lemma_pow2_unfold((i + 1) as nat);
        }
        r = r * 2;
        i = i + 1;
    }
    proof {
        vstd::arithmetic::power2::lemma_pow2_pos(k as nat);
    }
    r
}

/// Writes one line reporting a fault met during a free run.
/// Relies on `writeln` to standard output; diagnostic only.
#[verifier::external_body]
fn report_fault_line(text: &str) {
    let _ = writeln!(std::io::stdout(), "{}", text);
}

/// The execution engine: a program counter, a running flag, and the machine
/// state it drives.
pub struct MIXCPU {
    pub location: usize,
    pub running: bool,
    pub computer: MIXComputer,
}

/// The effective address `M` of an instruction: its signed address field,
/// plus the signed value of the named index register when the index byte is
/// not zero.  Meaningful only when the index byte is at most 8.
pub open spec fn eff_m(c: MIXCPU, ins: u32) -> int {
    w_m(ins) + if w_b3(ins) != 0 {
        w_val(c.computer.register@[w_b3(ins)].0)
    } else {
        0
    }
}

/// The program counter successor stored into register J by a taken jump:
/// one past the current location, wrapped to 32 bits.
pub open spec fn loc_succ(loc: int) -> int {
    ((loc % 0x1_0000_0000) + 1) % 0x1_0000_0000
}

/// True when the two engines hold identical machine states, counters and
/// flags.
pub open spec fn unchanged_state(pre: MIXCPU, post: MIXCPU) -> bool {
    &&& post.location == pre.location
    &&& post.running == pre.running
    &&& post.computer.register@ == pre.computer.register@
    &&& post.computer.overflow == pre.computer.overflow
    &&& post.computer.comp == pre.computer.comp
    &&& post.computer.units@ == pre.computer.units@
    &&& post.computer.memory@ == pre.computer.memory@
}

/// True when everything but the registers is unchanged.
pub open spec fn only_registers_differ(pre: MIXCPU, post: MIXCPU) -> bool {
    &&& post.location == pre.location
    &&& post.running == pre.running
    &&& post.computer.overflow == pre.computer.overflow
    &&& post.computer.comp == pre.computer.comp
    &&& post.computer.units@ == pre.computer.units@
    &&& post.computer.memory@ == pre.computer.memory@
}

/// True when everything but the registers and the overflow toggle is
/// unchanged.
pub open spec fn only_registers_overflow_differ(pre: MIXCPU, post: MIXCPU) -> bool {
    &&& post.location == pre.location
    &&& post.running == pre.running
    &&& post.computer.comp == pre.computer.comp
    &&& post.computer.units@ == pre.computer.units@
    &&& post.computer.memory@ == pre.computer.memory@
}

/// The word a load instruction places in its register: the field-sliced
/// memory word, with the sign inverted for the negative-load opcodes.
pub open spec fn load_word(m: u32, l: int, r: int, negate: bool) -> int {
    let sliced = range_slice(m, l, r);
    if negate {
        (1 - w_sign(sliced as u32)) * 0x8000_0000 + w_mag(sliced as u32)
    } else {
        sliced
    }
}

/// The memory word a store instruction leaves behind: bytes `max(l,1)..=r`
/// replaced by the low bytes of the register, the sign replaced exactly when
/// the field includes byte 0.
pub open spec fn store_result(m: u32, g: u32, l: int, r: int) -> int {
    let ll = if l < 1 {
        1
    } else {
        l
    };
    let sgn = if l == 0 {
        w_sign(g)
    } else {
        w_sign(m)
    };
    pack_word(
        sgn,
        if ll <= 1 && 1 <= r {
            w_byte(g, 5 - r + 1)
        } else {
            w_byte(m, 1)
        },
        if ll <= 2 && 2 <= r {
            w_byte(g, 5 - r + 2)
        } else {
            w_byte(m, 2)
        },
        if ll <= 3 && 3 <= r {
            w_byte(g, 5 - r + 3)
        } else {
            w_byte(m, 3)
        },
        if ll <= 4 && 4 <= r {
            w_byte(g, 5 - r + 4)
        } else {
            w_byte(m, 4)
        },
        if ll <= 5 && 5 <= r {
            w_byte(g, 5 - r + 5)
        } else {
            w_byte(m, 5)
        },
    )
}

/// The register a store instruction reads: a zero word for the store-zero
/// opcode, else the register selected by the opcode.
pub open spec fn store_source(pre: MIXCPU, ins: u32) -> u32 {
    if w_b5(ins) == 33 {
        0u32
    } else {
        pre.computer.register@[w_b5(ins) - 24].0
    }
}

/// What a load instruction (opcodes 8 through 23) does: faults leave the
/// state alone; otherwise the selected register receives the field-sliced
/// memory word.
pub open spec fn step_load(pre: MIXCPU, post: MIXCPU, ins: u32, res: Result<(), Fault>) -> bool {
    let l = w_b4(ins) / 8;
    let r = w_b4(ins) % 8;
    let regnum = (w_b5(ins) - 8) % 8;
    let negate = (w_b5(ins) - 8) / 8 == 1;
    if w_b3(ins) > 8 {
        res == Err::<(), Fault>(Fault::InvalidArgument) && unchanged_state(pre, post)
    } else if !(0 <= eff_m(pre, ins) <= 3999) {
        res == Err::<(), Fault>(Fault::AddressOutOfRange) && unchanged_state(pre, post)
    } else if !(l <= r && r <= 5) {
        res == Err::<(), Fault>(Fault::UnsupportedOpcode) && unchanged_state(pre, post)
    } else {
        let m = pre.computer.memory@[eff_m(pre, ins)].0;
        res == Ok::<(), Fault>(()) && only_registers_differ(pre, post)
            && post.computer.register@ == pre.computer.register@.update(
            regnum,
            MIXWord(load_word(m, l, r, negate) as u32),
        )
    }
}

/// What a store instruction (opcodes 24 through 33) does: faults leave the
/// state alone; otherwise the addressed memory word receives the selected
/// register bytes under the field.
pub open spec fn step_store(pre: MIXCPU, post: MIXCPU, ins: u32, res: Result<(), Fault>) -> bool {
    let l = w_b4(ins) / 8;
    let r = w_b4(ins) % 8;
    if w_b3(ins) > 8 {
        res == Err::<(), Fault>(Fault::InvalidArgument) && unchanged_state(pre, post)
    } else if !(0 <= eff_m(pre, ins) <= 3999) {
        res == Err::<(), Fault>(Fault::AddressOutOfRange) && unchanged_state(pre, post)
    } else if !(l <= r && r <= 5) {
        res == Err::<(), Fault>(Fault::UnsupportedOpcode) && unchanged_state(pre, post)
    } else {
        let m = pre.computer.memory@[eff_m(pre, ins)].0;
        let g = store_source(pre, ins);
        res == Ok::<(), Fault>(()) && post.location == pre.location && post.running == pre.running
            && post.computer.register@ == pre.computer.register@ && post.computer.overflow
            == pre.computer.overflow && post.computer.comp == pre.computer.comp
            && post.computer.units@ == pre.computer.units@ && post.computer.memory@
            == pre.computer.memory@.update(eff_m(pre, ins), MIXWord(store_result(m, g, l, r) as u32))
    }
}

/// The word produced by a signed addition or subtraction result: a zero
/// result keeps magnitude 0 with a positive sign; otherwise the magnitude is
/// the absolute result truncated to 30 bits under the sign of the result.
pub open spec fn arith_word(s: int) -> int {
    if s == 0 {
        0
    } else {
        (if s < 0 {
            1int
        } else {
            0int
        }) * 0x8000_0000 + int_abs(s) % 0x4000_0000
    }
}

/// The word `from_value` builds for a signed quantity.
pub open spec fn from_value_word(c: int) -> int {
    (if c < 0 {
        1int
    } else {
        0int
    }) * 0x8000_0000 + int_abs(c) % 0x8000_0000
}

/// The comparison indicator for two signed values.
pub open spec fn cmp3(a: int, b: int) -> Comparison {
    if a < b {
        Comparison::Less
    } else if a == b {
        Comparison::Equal
    } else {
        Comparison::Greater
    }
}

/// What the shared arithmetic core does to the registers and the overflow
/// toggle, for operation `op` (1 add, 2 subtract, 3 multiply, 4 divide) with
/// operand `v` against registers `ra` and `rx`.
pub open spec fn arith_num_rel(
    pre_regs: Seq<MIXWord>,
    pre_ovf: bool,
    post_regs: Seq<MIXWord>,
    post_ovf: bool,
    op: int,
    v: u32,
    ra: int,
    rx: int,
    res: Result<(), Fault>,
) -> bool {
    let a = w_val(pre_regs[ra].0);
    let b = w_val(v);
    if op == 1 || op == 2 {
        let s = if op == 1 {
            a + b
        } else {
            a - b
        };
        res == Ok::<(), Fault>(()) && post_ovf == (pre_ovf || (s != 0 && int_abs(s) > 0x3fff_ffff))
            && post_regs == pre_regs.update(ra, MIXWord(arith_word(s) as u32))
    } else if op == 3 {
        let prod = a * b;
        let sgn = if w_sign(pre_regs[ra].0) != w_sign(v) {
            1int
        } else {
            0int
        };
        res == Ok::<(), Fault>(()) && post_ovf == pre_ovf && post_regs == pre_regs.update(
            ra,
            MIXWord((sgn * 0x8000_0000 + (int_abs(prod) / 0x4000_0000) % 0x8000_0000) as u32),
        ).update(rx, MIXWord((sgn * 0x8000_0000 + int_abs(prod) % 0x4000_0000) as u32))
    } else if op == 4 {
        if b == 0 {
            res == Err::<(), Fault>(Fault::DivideByZero) && post_regs == pre_regs && post_ovf
                == pre_ovf
        } else {
            let d = a * 0x4000_0000 + int_abs(w_val(pre_regs[rx].0));
            let qm = int_abs(d) / int_abs(b);
            let rm = int_abs(d) % int_abs(b);
            let qsgn = if w_sign(pre_regs[ra].0) != w_sign(v) {
                1int
            } else {
                0int
            };
            res == Ok::<(), Fault>(()) && post_ovf == (pre_ovf || qm > 0x3fff_ffff) && post_regs
                == pre_regs.update(ra, MIXWord((qsgn * 0x8000_0000 + qm % 0x8000_0000) as u32))
                .update(
                rx,
                MIXWord((w_sign(pre_regs[ra].0) * 0x8000_0000 + rm % 0x8000_0000) as u32),
            )
        }
    } else {
        false
    }
}

/// What an arithmetic instruction (opcodes 1 through 4) does: the
/// field-sliced memory operand feeds the shared arithmetic core against
/// registers A and X.
pub open spec fn step_arith(pre: MIXCPU, post: MIXCPU, ins: u32, res: Result<(), Fault>) -> bool {
    let l = w_b4(ins) / 8;
    let r = w_b4(ins) % 8;
    if w_b3(ins) > 8 {
        res == Err::<(), Fault>(Fault::InvalidArgument) && unchanged_state(pre, post)
    } else if !(0 <= eff_m(pre, ins) <= 3999) {
        res == Err::<(), Fault>(Fault::AddressOutOfRange) && unchanged_state(pre, post)
    } else if !(l <= r && r <= 5) {
        res == Err::<(), Fault>(Fault::UnsupportedOpcode) && unchanged_state(pre, post)
    } else {
        let v = range_slice(pre.computer.memory@[eff_m(pre, ins)].0, l, r) as u32;
        only_registers_overflow_differ(pre, post) && arith_num_rel(
            pre.computer.register@,
            pre.computer.overflow,
            post.computer.register@,
            post.computer.overflow,
            w_b5(ins) as int,
            v,
            0,
            7,
            res,
        )
    }
}

/// What a transfer instruction (opcodes 48 through 55) does: the effective
/// address itself, as a literal operand, feeds the arithmetic core; the
/// enter variants first clear the register.
pub open spec fn step_transfer(pre: MIXCPU, post: MIXCPU, ins: u32, res: Result<(), Fault>) -> bool {
    let f = w_b4(ins);
    let reg = w_b5(ins) - 48;
    if w_b3(ins) > 8 {
        res == Err::<(), Fault>(Fault::InvalidArgument) && unchanged_state(pre, post)
    } else if f > 3 {
        res == Err::<(), Fault>(Fault::UnsupportedOpcode) && unchanged_state(pre, post)
    } else {
        let vw = MIXWord(from_value_word(eff_m(pre, ins)) as u32);
        let base = if f == 2 || f == 3 {
            pre.computer.register@.update(reg, MIXWord(0))
        } else {
            pre.computer.register@
        };
        let op = if f == 0 || f == 2 {
            1int
        } else {
            2int
        };
        only_registers_overflow_differ(pre, post) && arith_num_rel(
            base,
            pre.computer.overflow,
            post.computer.register@,
            post.computer.overflow,
            op,
            vw.0,
            reg,
            7,
            res,
        )
    }
}

/// What a compare instruction (opcodes 56 through 63) does: the comparison
/// indicator receives the signed comparison of the named register with the
/// addressed memory word.
pub open spec fn step_compare(pre: MIXCPU, post: MIXCPU, ins: u32, res: Result<(), Fault>) -> bool {
    let reg = w_b5(ins) - 56;
    if w_b3(ins) > 8 {
        res == Err::<(), Fault>(Fault::InvalidArgument) && unchanged_state(pre, post)
    } else if !(0 <= eff_m(pre, ins) <= 3999) {
        res == Err::<(), Fault>(Fault::AddressOutOfRange) && unchanged_state(pre, post)
    } else {
        res == Ok::<(), Fault>(()) && post.location == pre.location && post.running == pre.running
            && post.computer.register@ == pre.computer.register@ && post.computer.overflow
            == pre.computer.overflow && post.computer.units@ == pre.computer.units@
            && post.computer.memory@ == pre.computer.memory@ && post.computer.comp == cmp3(
            w_val(pre.computer.register@[reg].0),
            w_val(pre.computer.memory@[eff_m(pre, ins)].0),
        )
    }
}

/// The effective address computed over an explicit register file.
pub open spec fn eff_m_regs(regs: Seq<MIXWord>, ins: u32) -> int {
    w_m(ins) + if w_b3(ins) != 0 {
        w_val(regs[w_b3(ins)].0)
    } else {
        0
    }
}

/// Whether a jump instruction's condition holds in the given state.
pub open spec fn jump_taken(pre: MIXCPU, ins: u32) -> bool {
    let op = w_b5(ins);
    let f = w_b4(ins);
    if op == 39 {
        if f == 0 || f == 1 {
            true
        } else if f == 2 {
            pre.computer.overflow
        } else if f == 3 {
            !pre.computer.overflow
        } else if f == 4 {
            pre.computer.comp == Comparison::Less
        } else if f == 5 {
            pre.computer.comp == Comparison::Equal
        } else if f == 6 {
            pre.computer.comp == Comparison::Greater
        } else if f == 7 {
            pre.computer.comp == Comparison::Greater || pre.computer.comp == Comparison::Equal
        } else if f == 8 {
            pre.computer.comp == Comparison::Greater || pre.computer.comp == Comparison::Less
        } else if f == 9 {
            pre.computer.comp == Comparison::Less || pre.computer.comp == Comparison::Equal
        } else {
            false
        }
    } else {
        let rv = w_val(pre.computer.register@[op - 40].0);
        if f == 0 {
            rv < 0
        } else if f == 1 {
            rv == 0
        } else if f == 2 {
            rv > 0
        } else if f == 3 {
            rv >= 0
        } else if f == 4 {
            rv != 0
        } else if f == 5 {
            rv <= 0
        } else {
            false
        }
    }
}

/// What a jump instruction (opcodes 39 through 47) does.  A jump not taken
/// only runs the overflow-clearing side effect of the jump-on-no-overflow
/// field.  A taken jump first writes the return address into J (except for
/// the jump-save-J field), then relocates the program counter; a bad index
/// byte or a target outside memory faults with the counter unchanged.
pub open spec fn step_jump(pre: MIXCPU, post: MIXCPU, ins: u32, res: Result<(), Fault>) -> bool {
    let op = w_b5(ins);
    let f = w_b4(ins);
    let ovf1 = if op == 39 && f == 3 {
        false
    } else {
        pre.computer.overflow
    };
    let jsj = op == 39 && f == 1;
    let jregs = if jsj {
        pre.computer.register@
    } else {
        pre.computer.register@.update(8, MIXWord(loc_succ(pre.location as int) as u32))
    };
    let target = eff_m_regs(jregs, ins);
    if !jump_taken(pre, ins) {
        res == Ok::<(), Fault>(()) && post.location == pre.location && post.running == pre.running
            && post.computer.register@ == pre.computer.register@ && post.computer.overflow == ovf1
            && post.computer.comp == pre.computer.comp && post.computer.units@
            == pre.computer.units@ && post.computer.memory@ == pre.computer.memory@
    } else {
        post.running == pre.running && post.computer.register@ == jregs && post.computer.overflow
            == ovf1 && post.computer.comp == pre.computer.comp && post.computer.units@
            == pre.computer.units@ && post.computer.memory@ == pre.computer.memory@ && if w_b3(ins)
            > 8 {
            res == Err::<(), Fault>(Fault::InvalidArgument) && post.location == pre.location
        } else if !(0 <= target <= 3999) {
            res == Err::<(), Fault>(Fault::AddressOutOfRange) && post.location == pre.location
        } else {
            res == Ok::<(), Fault>(()) && post.location == target
        }
    }
}

/// What the call instruction (opcode 38) does: write the return address into
/// J, then jump unconditionally.
pub open spec fn step_call(pre: MIXCPU, post: MIXCPU, ins: u32, res: Result<(), Fault>) -> bool {
    let jregs = pre.computer.register@.update(8, MIXWord(loc_succ(pre.location as int) as u32));
    let target = eff_m_regs(jregs, ins);
    post.running == pre.running && post.computer.register@ == jregs && post.computer.overflow
        == pre.computer.overflow && post.computer.comp == pre.computer.comp && post.computer.units@
        == pre.computer.units@ && post.computer.memory@ == pre.computer.memory@ && if w_b3(ins)
        > 8 {
        res == Err::<(), Fault>(Fault::InvalidArgument) && post.location == pre.location
    } else if !(0 <= target <= 3999) {
        res == Err::<(), Fault>(Fault::AddressOutOfRange) && post.location == pre.location
    } else {
        res == Ok::<(), Fault>(()) && post.location == target
    }
}

/// Powers of ten up to the ninth, the place values of ten decimal digits.
pub open spec fn p10(k: int) -> int {
    if k <= 0 {
        1
    } else if k == 1 {
        10
    } else if k == 2 {
        100
    } else if k == 3 {
        1000
    } else if k == 4 {
        10000
    } else if k == 5 {
        100000
    } else if k == 6 {
        1000000
    } else if k == 7 {
        10000000
    } else if k == 8 {
        100000000
    } else {
        1000000000
    }
}

/// The number read by the convert-to-numeric operation: the five low bytes
/// of A then of X as ten decimal digits, the most significant from A.
pub open spec fn num_value(a: u32, x: u32) -> int {
    w_byte(a, 1) * p10(9) + w_byte(a, 2) * p10(8) + w_byte(a, 3) * p10(7) + w_byte(a, 4) * p10(6)
        + w_byte(a, 5) * p10(5) + w_byte(x, 1) * p10(4) + w_byte(x, 2) * p10(3) + w_byte(x, 3)
        * p10(2) + w_byte(x, 4) * p10(1) + w_byte(x, 5)
}

/// Decimal digit `k` (0 the most significant of ten) of a magnitude.
pub open spec fn dec_digit(v: int, k: int) -> int {
    (v / p10(9 - k)) % 10
}

/// What the numeric and character conversions and the halt instruction
/// (opcode 5) do, selected by the field.
pub open spec fn step_numchar(pre: MIXCPU, post: MIXCPU, ins: u32, res: Result<(), Fault>) -> bool {
    let f = w_b4(ins);
    let a = pre.computer.register@[0].0;
    let x = pre.computer.register@[7].0;
    if f == 2 {
        res == Ok::<(), Fault>(()) && post.location == pre.location && post.running == false
            && post.computer.register@ == pre.computer.register@ && post.computer.overflow
            == pre.computer.overflow && post.computer.comp == pre.computer.comp
            && post.computer.units@ == pre.computer.units@ && post.computer.memory@
            == pre.computer.memory@
    } else if f == 0 {
        let mag = (num_value(a, x) % 0x1_0000_0000) % 0x8000_0000;
        res == Ok::<(), Fault>(()) && only_registers_differ(pre, post) && post.computer.register@
            == pre.computer.register@.update(0, MIXWord((w_sign(a) * 0x8000_0000 + mag) as u32))
    } else if f == 1 {
        let v = w_mag(a);
        let aw = pack_word(
            w_sign(a),
            dec_digit(v, 0),
            dec_digit(v, 1),
            dec_digit(v, 2),
            dec_digit(v, 3),
            dec_digit(v, 4),
        );
        let xw = pack_word(
            w_sign(x),
            dec_digit(v, 5),
            dec_digit(v, 6),
            dec_digit(v, 7),
            dec_digit(v, 8),
            dec_digit(v, 9),
        );
        res == Ok::<(), Fault>(()) && only_registers_differ(pre, post) && post.computer.register@
            == pre.computer.register@.update(0, MIXWord(aw as u32)).update(7, MIXWord(xw as u32))
    } else {
        res == Err::<(), Fault>(Fault::UnsupportedOpcode) && unchanged_state(pre, post)
    }
}

/// What a device instruction (opcodes 36 input, 37 output) does: the state
/// is never changed; the result reports an unknown device, a bad address, or
/// for output a transfer block that leaves memory.
pub open spec fn step_device(pre: MIXCPU, post: MIXCPU, ins: u32, res: Result<(), Fault>) -> bool {
    let f = w_b4(ins);
    unchanged_state(pre, post) && if f > 15 {
        res == Err::<(), Fault>(Fault::InvalidDevice)
    } else if w_b3(ins) > 8 {
        res == Err::<(), Fault>(Fault::InvalidArgument)
    } else if !(0 <= eff_m(pre, ins) <= 3999) {
        res == Err::<(), Fault>(Fault::AddressOutOfRange)
    } else if w_b5(ins) == 36 {
        res == Ok::<(), Fault>(())
    } else {
        res == (if eff_m(pre, ins) + 100 > 4000 {
            Err::<(), Fault>(Fault::AddressOutOfRange)
        } else {
            Ok::<(), Fault>(())
        })
    }
}

/// The 60-bit concatenation of the magnitudes of A and X (A's magnitude may
/// carry a 31st bit, which rides above the 60-bit field).
pub open spec fn ax_pair(pre: MIXCPU) -> int {
    w_mag(pre.computer.register@[0].0) * 0x4000_0000 + w_mag(pre.computer.register@[7].0)
}

/// A magnitude shifted left by `s` bits, masked to 31 bits.
pub open spec fn sla_mag(mag: int, s: int) -> int {
    if s >= 31 {
        0
    } else {
        (mag * pow2(s as nat)) % 0x8000_0000
    }
}

/// A magnitude shifted right by `s` bits.
pub open spec fn sra_mag(mag: int, s: int) -> int {
    if s >= 31 {
        0
    } else {
        mag / (pow2(s as nat) as int)
    }
}

/// The A:X pair shifted left by `s` bits with zero fill, in 60 bits.
pub open spec fn slax_ax(ax: int, s: int) -> int {
    if s >= 60 {
        0
    } else {
        (ax % (pow2((60 - s) as nat) as int)) * (pow2(s as nat) as int)
    }
}

/// The A:X pair shifted right by `s` bits with zero fill, masked to 60 bits.
pub open spec fn srax_ax(ax: int, s: int) -> int {
    if s >= 61 {
        0
    } else {
        (ax / (pow2(s as nat) as int)) % (pow2(60) as int)
    }
}

/// A 60-bit value rotated left by `k` bits, for `k` in 0..60.
pub open spec fn rotl60(low: int, k: int) -> int {
    (low % (pow2((60 - k) as nat) as int)) * (pow2(k as nat) as int) + low / (pow2(
        (60 - k) as nat,
    ) as int)
}

/// A 60-bit value rotated right by `k` bits, for `k` in 0..60.
pub open spec fn rotr60(low: int, k: int) -> int {
    low / (pow2(k as nat) as int) + (low % (pow2(k as nat) as int)) * (pow2((60 - k) as nat) as int)
}

/// The A:X pair rotated left circularly as a 60-bit value; anything riding
/// above the 60-bit field is discarded.
pub open spec fn slc_ax(ax: int, s: int) -> int {
    rotl60(ax % (pow2(60) as int), s % 60)
}

/// The A:X pair rotated right circularly as a 60-bit value; anything riding
/// above the 60-bit field is discarded.
pub open spec fn src_ax(ax: int, s: int) -> int {
    rotr60(ax % (pow2(60) as int), s % 60)
}

/// Register A rebuilt from a shifted pair: its old sign over the high 30
/// bits of the pair (any 61st bit a plain right shift may keep is masked to
/// 31 bits).
pub open spec fn split_a(pre_a: u32, ax: int) -> int {
    w_sign(pre_a) * 0x8000_0000 + (ax / 0x4000_0000) % 0x8000_0000
}

/// Register X rebuilt from a shifted pair: its old sign over the low 30
/// bits of the pair.
pub open spec fn split_x(pre_x: u32, ax: int) -> int {
    w_sign(pre_x) * 0x8000_0000 + ax % 0x4000_0000
}

/// What a shift instruction (opcode 6) does, selected by the field: shift A
/// alone, shift the A:X pair with zero fill, or rotate the pair circularly;
/// every sign is kept.  A negative shift count is rejected.
pub open spec fn step_misc(pre: MIXCPU, post: MIXCPU, ins: u32, res: Result<(), Fault>) -> bool {
    let f = w_b4(ins);
    let a = pre.computer.register@[0].0;
    let x = pre.computer.register@[7].0;
    if f > 5 {
        res == Err::<(), Fault>(Fault::UnsupportedOpcode) && unchanged_state(pre, post)
    } else if w_b3(ins) > 8 {
        res == Err::<(), Fault>(Fault::InvalidArgument) && unchanged_state(pre, post)
    } else if eff_m(pre, ins) < 0 {
        res == Err::<(), Fault>(Fault::InvalidArgument) && unchanged_state(pre, post)
    } else {
        let s = eff_m(pre, ins);
        res == Ok::<(), Fault>(()) && only_registers_differ(pre, post) && if f == 0 {
            post.computer.register@ == pre.computer.register@.update(
                0,
                MIXWord((w_sign(a) * 0x8000_0000 + sla_mag(w_mag(a), s)) as u32),
            )
        } else if f == 1 {
            post.computer.register@ == pre.computer.register@.update(
                0,
                MIXWord((w_sign(a) * 0x8000_0000 + sra_mag(w_mag(a), s)) as u32),
            )
        } else {
            let ax = ax_pair(pre);
            let ax2 = if f == 2 {
                slax_ax(ax, s)
            } else if f == 3 {
                srax_ax(ax, s)
            } else if f == 4 {
                slc_ax(ax, s)
            } else {
                src_ax(ax, s)
            };
            post.computer.register@ == pre.computer.register@.update(
                0,
                MIXWord(split_a(a, ax2) as u32),
            ).update(7, MIXWord(split_x(x, ax2) as u32))
        }
    }
}

/// A 32-bit register content incremented `t` times, wrapping.
pub open spec fn add32(i1: u32, t: int) -> int {
    (i1 + t) % 0x1_0000_0000
}

/// Whether step `t` of a block move can proceed: the source index stays in
/// memory and the destination register holds a valid address.
pub open spec fn move_step_valid(src: int, i1: u32, t: int) -> bool {
    src + t <= 3999 && 0 <= w_val(add32(i1, t) as u32) <= 3999
}

/// How many leading steps of an `n`-word block move proceed before one
/// faults.
pub open spec fn good_steps(src: int, i1: u32, n: nat) -> nat
    decreases n,
{
    if n == 0 {
        0
    } else {
        let p = good_steps(src, i1, (n - 1) as nat);
        if p < n - 1 {
            p
        } else if move_step_valid(src, i1, n - 1) {
            n
        } else {
            p
        }
    }
}

/// The memory after `n` steps of a block move: each step copies one word
/// from the moving source index to the address held by the moving register,
/// reading the memory as already changed by the earlier steps.
pub open spec fn move_mem(mem: Seq<MIXWord>, src: int, i1: u32, n: nat) -> Seq<MIXWord>
    decreases n,
{
    if n == 0 {
        mem
    } else {
        let prev = move_mem(mem, src, i1, (n - 1) as nat);
        prev.update(w_val(add32(i1, n - 1) as u32), prev[src + n - 1])
    }
}

/// Law: once a step of a block move is invalid, no later step counts.
proof fn lemma_good_steps_stuck(src: int, i1: u32, t: nat, n: nat)
    requires
        good_steps(src, i1, t) == t,
        !move_step_valid(src, i1, t as int),
        t <= n,
    ensures
        good_steps(src, i1, n) == t,
    decreases n,
{
    if n > t {
        lemma_good_steps_stuck(src, i1, t, (n - 1) as nat);
    }
}

/// What a block move instruction (opcode 7) does: copy the field's count of
/// words from the effective address to the address held in I1, incrementing
/// both as it goes; a step that would leave memory faults there, keeping the
/// work of the earlier steps.
pub open spec fn step_move(pre: MIXCPU, post: MIXCPU, ins: u32, res: Result<(), Fault>) -> bool {
    let f = w_b4(ins);
    if w_b3(ins) > 8 {
        res == Err::<(), Fault>(Fault::InvalidArgument) && unchanged_state(pre, post)
    } else if !(0 <= eff_m(pre, ins) <= 3999) {
        res == Err::<(), Fault>(Fault::AddressOutOfRange) && unchanged_state(pre, post)
    } else {
        let src = eff_m(pre, ins);
        let i1 = pre.computer.register@[1].0;
        let g = good_steps(src, i1, f as nat);
        post.location == pre.location && post.running == pre.running && post.computer.overflow
            == pre.computer.overflow && post.computer.comp == pre.computer.comp
            && post.computer.units@ == pre.computer.units@ && post.computer.memory@ == move_mem(
            pre.computer.memory@,
            src,
            i1,
            g,
        ) && post.computer.register@ == pre.computer.register@.update(
            1,
            MIXWord(add32(i1, g as int) as u32),
        ) && res == (if g == f {
            Ok::<(), Fault>(())
        } else {
            Err::<(), Fault>(Fault::AddressOutOfRange)
        })
    }
}

/// What a no-operation instruction (opcodes 0, 34, 35) does: nothing.
pub open spec fn step_nop(pre: MIXCPU, post: MIXCPU, res: Result<(), Fault>) -> bool {
    res == Ok::<(), Fault>(()) && unchanged_state(pre, post)
}

/// What one instruction does to the engine, dispatched on its opcode, and
/// for opcode 5 on its field.  This is the full contract of `execute`.
pub open spec fn step_spec(pre: MIXCPU, post: MIXCPU, ins: u32, res: Result<(), Fault>) -> bool {
    let op = w_b5(ins);
    if 8 <= op <= 23 {
        step_load(pre, post, ins, res)
    } else if 24 <= op <= 33 {
        step_store(pre, post, ins, res)
    } else if 1 <= op <= 4 {
        step_arith(pre, post, ins, res)
    } else if 48 <= op <= 55 {
        step_transfer(pre, post, ins, res)
    } else if 56 <= op <= 63 {
        step_compare(pre, post, ins, res)
    } else if 39 <= op <= 47 {
        step_jump(pre, post, ins, res)
    } else if op == 6 {
        step_misc(pre, post, ins, res)
    } else if op == 7 {
        step_move(pre, post, ins, res)
    } else if op == 0 || op == 34 || op == 35 {
        step_nop(pre, post, res)
    } else if op == 5 {
        step_numchar(pre, post, ins, res)
    } else if op == 36 || op == 37 {
        step_device(pre, post, ins, res)
    } else {
        step_call(pre, post, ins, res)
    }
}

/// Law: a division whose field-sliced operand has value zero fails with
/// `DivideByZero` and leaves every register, flag and memory word unchanged.
pub proof fn lemma_divide_by_zero(pre: MIXCPU, post: MIXCPU, ins: u32, res: Result<(), Fault>)
    requires
        step_spec(pre, post, ins, res),
        w_b5(ins) == 4,
        w_b3(ins) <= 8,
        0 <= eff_m(pre, ins) <= 3999,
        w_b4(ins) / 8 <= w_b4(ins) % 8 <= 5,
        w_val(
            range_slice(
                pre.computer.memory@[eff_m(pre, ins)].0,
                w_b4(ins) / 8,
                w_b4(ins) % 8,
            ) as u32,
        ) == 0,
    ensures
        res == Err::<(), Fault>(Fault::DivideByZero),
        unchanged_state(pre, post),
{
}

/// Law: a taken unconditional jump from location L writes L+1 into register
/// J and moves the program counter to the target; a target outside memory
/// fails with `AddressOutOfRange` and leaves the counter at L.
pub proof fn lemma_jump_bookkeeping(pre: MIXCPU, post: MIXCPU, ins: u32, res: Result<(), Fault>)
    requires
        step_spec(pre, post, ins, res),
        w_b5(ins) == 39,
        w_b4(ins) == 0,
        w_b3(ins) <= 8,
    ensures
        post.computer.register@ == pre.computer.register@.update(
            8,
            MIXWord(loc_succ(pre.location as int) as u32),
        ),
        ({
            let target = eff_m_regs(
                pre.computer.register@.update(8, MIXWord(loc_succ(pre.location as int) as u32)),
                ins,
            );
            if 0 <= target <= 3999 {
                res == Ok::<(), Fault>(()) && post.location == target
            } else {
                res == Err::<(), Fault>(Fault::AddressOutOfRange) && post.location == pre.location
            }
        }),
{
}

/// Law: an instruction that does not relocate the program counter leaves it
/// where it was, whatever else it does.
proof fn lemma_step_keeps_location(pre: MIXCPU, post: MIXCPU, ins: u32, res: Result<(), Fault>)
    requires
        step_spec(pre, post, ins, res),
        !relocated(pre, ins),
    ensures
        post.location == pre.location,
{
}

/// Whether an instruction relocates the program counter: a taken jump or
/// call whose target lies inside memory.
pub open spec fn relocated(pre: MIXCPU, ins: u32) -> bool {
    let op = w_b5(ins);
    let jsj = op == 39 && w_b4(ins) == 1;
    let jregs = if jsj {
        pre.computer.register@
    } else {
        pre.computer.register@.update(8, MIXWord(loc_succ(pre.location as int) as u32))
    };
    if op == 38 {
        w_b3(ins) <= 8 && 0 <= eff_m_regs(jregs, ins) <= 3999
    } else if 39 <= op <= 47 {
        jump_taken(pre, ins) && w_b3(ins) <= 8 && 0 <= eff_m_regs(jregs, ins) <= 3999
    } else {
        false
    }
}

impl MIXCPU {
    /// Well-formedness of the engine: its machine state is well formed.
    pub open spec fn wf(&self) -> bool {
        self.computer.wf()
    }

    /// An engine holding the given machine, stopped at location 0.
    pub fn from(computer: MIXComputer) -> (r: Self)
        ensures
            r.computer == computer,
            r.location == 0,
            r.running == true,
    {
        MIXCPU { location: 0usize, running: true, computer }
    }

    /// The effective address `M`: the signed address field plus the content
    /// of the named index register.  Fails when the index byte names no
    /// register.
    fn calculate_bigm(&self, ins: MIXWord) -> (r: Result<i64, Fault>)
        requires
            self.wf(),
        ensures
            w_b3(ins.0) > 8 ==> r == Err::<i64, Fault>(Fault::InvalidArgument),
            w_b3(ins.0) <= 8 ==> r == Ok::<i64, Fault>(eff_m(*self, ins.0) as i64),
    {
        let i = ins.get_i();
        if i > 8 {
            return Err(Fault::InvalidArgument);
        }
        let base = ins.get_m() as i64;
        if i != 0 {
            let signed: i64 = self.computer.register[i as usize].get_value();
            Ok(base + signed)
        } else {
            Ok(base)
        }
    }

    /// The effective address as a memory index: fails when the index byte is
    /// invalid or the address leaves memory.
    fn calculate_address(&self, ins: MIXWord) -> (r: Result<usize, Fault>)
        requires
            self.wf(),
        ensures
            w_b3(ins.0) > 8 ==> r == Err::<usize, Fault>(Fault::InvalidArgument),
            w_b3(ins.0) <= 8 && !(0 <= eff_m(*self, ins.0) <= 3999) ==> r == Err::<usize, Fault>(
                Fault::AddressOutOfRange,
            ),
            w_b3(ins.0) <= 8 && 0 <= eff_m(*self, ins.0) <= 3999 ==> r == Ok::<usize, Fault>(
                eff_m(*self, ins.0) as usize,
            ),
    {
        let v = self.calculate_bigm(ins)?;
        if 0 <= v && v <= 3999 {
            Ok(v as usize)
        } else {
            Err(Fault::AddressOutOfRange)
        }
    }

    /// Move the program counter to a jump target, failing when the target
    /// lies outside memory.
    fn jump_to(&mut self, target: i64) -> (r: Result<(), Fault>)
        ensures
            final(self).running == old(self).running,
            final(self).computer == old(self).computer,
            0 <= target <= 3999 ==> r == Ok::<(), Fault>(()) && final(self).location == target,
            !(0 <= target <= 3999) ==> r == Err::<(), Fault>(Fault::AddressOutOfRange)
                && final(self).location == old(self).location,
    {
        if 0 <= target && target <= 3999 {
            self.location = target as usize;
            Ok(())
        } else {
            Err(Fault::AddressOutOfRange)
        }
    }

    /// The word stored into register J by a taken jump: one past the current
    /// location, wrapped to 32 bits.
    fn return_word(&self) -> (r: u32)
        ensures
            r == loc_succ(self.location as int),
    {
        ((((self.location as u64) % 0x1_0000_0000) + 1) % 0x1_0000_0000) as u32
    }

    /// Perform a jump instruction: test the condition, save the return
    /// address in J unless the field says not to, and relocate the counter.
    fn calculate_jump(&mut self, ins: MIXWord) -> (r: (Result<(), Fault>, bool))
        requires
            old(self).wf(),
            39 <= w_b5(ins.0) <= 47,
        ensures
            final(self).wf(),
            step_jump(*old(self), *final(self), ins.0, r.0),
            r.1 == relocated(*old(self), ins.0),
    {
        let op = ins.get_op();
        let f = ins.get_f();
        if op == 39 && f == 1 {
            let target = match self.calculate_bigm(ins) {
                Ok(t) => t,
                Err(e) => {
                    return (Err(e), false);
                },
            };
            let res = self.jump_to(target);
            let ok = matches!(res, Ok(_));
            return (res, ok);
        }
        let jump: bool = if op == 39 {
            if f == 0 {
                true
            } else if f == 2 {
                self.computer.overflow
            } else if f == 3 {
                !self.computer.overflow
            } else if f == 4 {
                matches!(self.computer.comp, Comparison::Less)
            } else if f == 5 {
                matches!(self.computer.comp, Comparison::Equal)
            } else if f == 6 {
                matches!(self.computer.comp, Comparison::Greater)
            } else if f == 7 {
                matches!(self.computer.comp, Comparison::Greater | Comparison::Equal)
            } else if f == 8 {
                matches!(self.computer.comp, Comparison::Greater | Comparison::Less)
            } else if f == 9 {
                matches!(self.computer.comp, Comparison::Less | Comparison::Equal)
            } else {
                false
            }
        } else {
            let reg_number = (op - 40) as usize;
            let rv: i64 = self.computer.register[reg_number].get_value();
            if f == 0 {
                rv < 0
            } else if f == 1 {
                rv == 0
            } else if f == 2 {
                rv > 0
            } else if f == 3 {
                rv >= 0
            } else if f == 4 {
                rv != 0
            } else if f == 5 {
                rv <= 0
            } else {
                false
            }
        };
        if op == 39 && f == 3 {
            self.computer.overflow = false;
        }
        if jump {
            let jw = self.return_word();
            self.computer.register.set(8, MIXWord(jw));
            let target = match self.calculate_bigm(ins) {
                Ok(t) => t,
                Err(e) => {
                    return (Err(e), false);
                },
            };
            let res = self.jump_to(target);
            let ok = matches!(res, Ok(_));
            (res, ok)
        } else {
            (Ok(()), false)
        }
    }

    /// Perform the call instruction: save the return address in J, then jump
    /// unconditionally.
    fn execute_call(&mut self, ins: MIXWord) -> (r: Result<(), Fault>)
        requires
            old(self).wf(),
            w_b5(ins.0) == 38,
        ensures
            final(self).wf(),
            step_call(*old(self), *final(self), ins.0, r),
    {
        let jw = self.return_word();
        self.computer.register.set(8, MIXWord(jw));
        let target = match self.calculate_bigm(ins) {
            Ok(t) => t,
            Err(e) => {
                return Err(e);
            },
        };
        self.jump_to(target)
    }

    /// Stop a free run: clear the running flag.
    fn halt(&mut self) -> (r: Result<(), Fault>)
        ensures
            final(self).location == old(self).location,
            final(self).running == false,
            final(self).computer == old(self).computer,
            r == Ok::<(), Fault>(()),
    {
        self.running = false;
        Ok(())
    }

    /// Perform a numeric or character conversion, or halt, selected by the
    /// field of opcode 5.
    fn calculate_num_char(&mut self, ins: MIXWord) -> (r: Result<(), Fault>)
        requires
            old(self).wf(),
            w_b5(ins.0) == 5,
        ensures
            final(self).wf(),
            step_numchar(*old(self), *final(self), ins.0, r),
    {
        let f = ins.get_f();
        if f == 2 {
            self.halt()
        } else if f == 0 {
            let a = self.computer.register[0];
            let x = self.computer.register[7];
            let value: u64 = (a.byte_of(1) as u64) * 1000000000 + (a.byte_of(2) as u64) * 100000000
                + (a.byte_of(3) as u64) * 10000000 + (a.byte_of(4) as u64) * 1000000 + (a.byte_of(
                5,
            ) as u64) * 100000 + (x.byte_of(1) as u64) * 10000 + (x.byte_of(2) as u64) * 1000 + (
            x.byte_of(3) as u64) * 100 + (x.byte_of(4) as u64) * 10 + (x.byte_of(5) as u64);
            let mag: u32 = ((value % 0x1_0000_0000) % 0x8000_0000) as u32;
            let sa = a.get_opposite();
            proof {
                lemma_sign_mag_bounds(a.0);
            }
            self.computer.register.set(0, MIXWord(sa * 0x8000_0000 + mag));
            Ok(())
        } else if f == 1 {
            let a = self.computer.register[0];
            let x = self.computer.register[7];
            let v: u32 = a.0 % 0x8000_0000;
            let sa = a.get_opposite();
            let sx = x.get_opposite();
            proof {
                lemma_sign_mag_bounds(a.0);
                lemma_sign_mag_bounds(x.0);
            }
            let d0: u32 = (v / 1000000000) % 10;
            let d1: u32 = (v / 100000000) % 10;
            let d2: u32 = (v / 10000000) % 10;
            let d3: u32 = (v / 1000000) % 10;
            let d4: u32 = (v / 100000) % 10;
            let d5: u32 = (v / 10000) % 10;
            let d6: u32 = (v / 1000) % 10;
            let d7: u32 = (v / 100) % 10;
            let d8: u32 = (v / 10) % 10;
            let d9: u32 = v % 10;
            let aw = compose_word(sa, d0, d1, d2, d3, d4);
            let xw = compose_word(sx, d5, d6, d7, d8, d9);
            self.computer.register.set(0, aw);
            self.computer.register.set(7, xw);
            Ok(())
        } else {
            Err(Fault::UnsupportedOpcode)
        }
    }

    /// Perform a shift or rotate instruction on register A or on the A:X
    /// pair, selected by the field.
    fn calculate_miscellaneous(&mut self, ins: MIXWord) -> (r: Result<(), Fault>)
        requires
            old(self).wf(),
            w_b5(ins.0) == 6,
        ensures
            final(self).wf(),
            step_misc(*old(self), *final(self), ins.0, r),
    {
        let f = ins.get_f();
        if f > 5 {
            return Err(Fault::UnsupportedOpcode);
        }
        let m = match self.calculate_bigm(ins) {
            Ok(m) => m,
            Err(e) => {
                return Err(e);
            },
        };
        if m < 0 {
            return Err(Fault::InvalidArgument);
        }
        if f == 0 || f == 1 {
            let a = self.computer.register[0];
            let amag: u32 = a.0 % 0x8000_0000;
            let sa = a.get_opposite();
            proof {
                lemma_sign_mag_bounds(a.0);
            }
            let newmag: u32 = if f == 0 {
                if m >= 31 {
                    0
                } else {
                    let factor = pow2_u64(m as u64);
                    proof {
                        vstd::arithmetic::power2::lemma_pow2_strictly_increases(m as nat, 31);
                        vstd::arithmetic::power2::lemma2_to64();
                        vstd::arithmetic::mul::lemma_mul_upper_bound(
                            amag as int,
                            0x7fff_ffff,
                            factor as int,
                            0x7fff_ffff,
                        );
                    }
                    (((amag as u64) * factor) % 0x8000_0000) as u32
                }
            } else {
                if m >= 31 {
                    0
                } else {
                    let factor = pow2_u64(m as u64);
                    ((amag as u64) / factor) as u32
                }
            };
            self.computer.register.set(0, MIXWord(sa * 0x8000_0000 + newmag));
            Ok(())
        } else {
            let a = self.computer.register[0];
            let x = self.computer.register[7];
            let amag: u32 = a.0 % 0x8000_0000;
            let xmag: u32 = x.0 % 0x8000_0000;
            let sa = a.get_opposite();
            let sx = x.get_opposite();
            proof {
                lemma_sign_mag_bounds(a.0);
                lemma_sign_mag_bounds(x.0);
                vstd::arithmetic::power2::lemma2_to64_rest();
            }
            let ax: u64 = (amag as u64) * 0x4000_0000 + (xmag as u64);
            let ax2: u64 = if f == 2 {
                if m >= 60 {
                    0
                } else {
                    let p = pow2_u64(60 - (m as u64));
                    let q = pow2_u64(m as u64);
                    proof {
                        vstd::arithmetic::power2::lemma_pow2_adds((60 - m) as nat, m as nat);
                        vstd::arithmetic::mul::lemma_mul_strict_inequality(
                            (ax % p) as int,
                            p as int,
                            q as int,
                        );
                    }
                    (ax % p) * q
                }
            } else if f == 3 {
                if m >= 61 {
                    0
                } else {
                    let p = pow2_u64(m as u64);
                    (ax / p) % 0x1000_0000_0000_0000
                }
            } else {
                let k: u64 = (m % 60) as u64;
                let low: u64 = ax % 0x1000_0000_0000_0000;
                if f == 4 {
                    let p = pow2_u64(60 - k);
                    let q = pow2_u64(k);
                    proof {
                        vstd::arithmetic::power2::lemma_pow2_adds((60 - k) as nat, k as nat);
                        vstd::arithmetic::mul::lemma_mul_strict_inequality(
                            (low % p) as int,
                            p as int,
                            q as int,
                        );
                    }
                    (low % p) * q + low / p
                } else {
                    let p = pow2_u64(k);
                    let q = pow2_u64(60 - k);
                    proof {
                        vstd::arithmetic::power2::lemma_pow2_adds(k as nat, (60 - k) as nat);
                        vstd::arithmetic::mul::lemma_mul_strict_inequality(
                            (low % p) as int,
                            p as int,
                            q as int,
                        );
                    }
                    low / p + (low % p) * q
                }
            };
            let na: u32 = ((ax2 / 0x4000_0000) % 0x8000_0000) as u32;
            let nx: u32 = (ax2 % 0x4000_0000) as u32;
            self.computer.register.set(0, MIXWord(sa * 0x8000_0000 + na));
            self.computer.register.set(7, MIXWord(sx * 0x8000_0000 + nx));
            Ok(())
        }
    }

    /// Perform a block move: copy the field's count of words from the
    /// effective address to the address held in register I1, incrementing
    /// both.
    fn calculate_move(&mut self, ins: MIXWord) -> (r: Result<(), Fault>)
        requires
            old(self).wf(),
            w_b5(ins.0) == 7,
        ensures
            final(self).wf(),
            step_move(*old(self), *final(self), ins.0, r),
    {
        let src0 = match self.calculate_address(ins) {
            Ok(a) => a,
            Err(e) => {
                return Err(e);
            },
        };
        let count = ins.get_f();
        let ghost src_i = src0 as int;
        let ghost i1_0 = self.computer.register@[1].0;
        let ghost mem_0 = self.computer.memory@;
        let mut t: u32 = 0;
        proof {
            assert(self.computer.register@ =~= self.computer.register@.update(
                1,
                MIXWord(add32(i1_0, 0) as u32),
            ));
        }
        while t < count
            invariant
                self.wf(),
                t <= count,
                count < 64,
                src_i == src0 as int,
                src0 <= 3999,
                w_b3(ins.0) <= 8,
                eff_m(*old(self), ins.0) == src_i,
                w_b4(ins.0) == count,
                good_steps(src_i, i1_0, t as nat) == t,
                old(self).computer.register@.len() == 9,
                i1_0 == old(self).computer.register@[1].0,
                mem_0 == old(self).computer.memory@,
                self.computer.register@ == old(self).computer.register@.update(
                    1,
                    MIXWord(add32(i1_0, t as int) as u32),
                ),
                self.computer.memory@ == move_mem(mem_0, src_i, i1_0, t as nat),
                self.location == old(self).location,
                self.running == old(self).running,
                self.computer.overflow == old(self).computer.overflow,
                self.computer.comp == old(self).computer.comp,
                self.computer.units@ == old(self).computer.units@,
            decreases count - t,
        {
            let cur = self.computer.register[1];
            let d: i64 = cur.get_value();
            if src0 + (t as usize) > 3999 || d < 0 || d > 3999 {
                proof {
                    assert(cur.0 == add32(i1_0, t as int) as u32);
                    assert(!move_step_valid(src_i, i1_0, t as int));
                    lemma_good_steps_stuck(src_i, i1_0, t as nat, count as nat);
                }
                return Err(Fault::AddressOutOfRange);
            }
            let w = self.computer.memory[src0 + (t as usize)];
            self.computer.memory.set(d as usize, w);
            let nv: u32 = ((((cur.0 as u64) % 0x1_0000_0000) + 1) % 0x1_0000_0000) as u32;
            self.computer.register.set(1, MIXWord(nv));
            proof {
                vstd::arithmetic::div_mod::lemma_add_mod_noop(
                    i1_0 as int + t as int,
                    1,
                    0x1_0000_0000,
                );
                assert(self.computer.register@ =~= old(self).computer.register@.update(
                    1,
                    MIXWord(add32(i1_0, t + 1) as u32),
                ));
            }
            t = t + 1;
        }
        Ok(())
    }

    /// Perform a device instruction: hand the effective address to the
    /// addressed device slot for input or output.
    fn execute_device(&mut self, ins: MIXWord) -> (r: Result<(), Fault>)
        requires
            old(self).wf(),
            w_b5(ins.0) == 36 || w_b5(ins.0) == 37,
        ensures
            final(self).wf(),
            step_device(*old(self), *final(self), ins.0, r),
    {
        let f = ins.get_f();
        if f > 15 {
            return Err(Fault::InvalidDevice);
        }
        let address = match self.calculate_address(ins) {
            Ok(a) => a,
            Err(e) => {
                return Err(e);
            },
        };
        let op = ins.get_op();
        if op == 36 {
            let mut u = self.computer.units[f as usize];
            let res = u.unit_in(address);
            self.computer.units.set(f as usize, u);
            proof {
                assert(self.computer.units@ =~= old(self).computer.units@);
            }
            res
        } else {
            let u = self.computer.units[f as usize];
            u.unit_out(address, &self.computer)
        }
    }

    /// Decode and execute one instruction, also reporting whether it
    /// relocated the program counter.
    fn execute_step(&mut self, ins: MIXWord) -> (r: (Result<(), Fault>, bool))
        requires
            old(self).wf(),
        ensures
            final(self).wf(),
            step_spec(*old(self), *final(self), ins.0, r.0),
            r.1 == relocated(*old(self), ins.0),
    {
        let op = ins.get_op();
        if 8 <= op && op <= 23 {
            (self.execute_load(ins), false)
        } else if 24 <= op && op <= 33 {
            (self.execute_store(ins), false)
        } else if 1 <= op && op <= 4 {
            (self.execute_arithmetic(ins), false)
        } else if 48 <= op && op <= 55 {
            (self.execute_transfer(ins), false)
        } else if 56 <= op && op <= 63 {
            (self.execute_compare(ins), false)
        } else if 39 <= op && op <= 47 {
            self.calculate_jump(ins)
        } else if op == 6 {
            (self.calculate_miscellaneous(ins), false)
        } else if op == 7 {
            (self.calculate_move(ins), false)
        } else if op == 0 || op == 34 || op == 35 {
            (Ok(()), false)
        } else if op == 5 {
            (self.calculate_num_char(ins), false)
        } else if op == 36 || op == 37 {
            (self.execute_device(ins), false)
        } else {
            let res = self.execute_call(ins);
            let ok = matches!(res, Ok(_));
            (res, ok)
        }
    }

    /// Decode and execute one instruction against the held machine state.
    pub fn execute(&mut self, ins: MIXWord) -> (r: Result<(), Fault>)
        requires
            old(self).wf(),
        ensures
            final(self).wf(),
            step_spec(*old(self), *final(self), ins.0, r),
    {
        let (res, _jumped) = self.execute_step(ins);
        res
    }

    /// Decode and execute one instruction against the held machine state.
    pub fn execute_instruction(&mut self, ins: MIXWord) -> (r: Result<(), Fault>)
        requires
            old(self).wf(),
        ensures
            final(self).wf(),
            step_spec(*old(self), *final(self), ins.0, r),
    {
        self.execute(ins)
    }

    /// Advance the program counter past the current location, then execute
    /// the instruction that was there.
    pub fn execute_in_location(&mut self) -> (r: Result<(), Fault>)
        requires
            old(self).wf(),
            old(self).location <= 3999,
        ensures
            final(self).wf(),
            step_spec(
                (MIXCPU {
                    location: (old(self).location + 1) as usize,
                    running: old(self).running,
                    computer: old(self).computer,
                }),
                *final(self),
                old(self).computer.memory@[old(self).location as int].0,
                r,
            ),
    {
        self.location = self.location + 1;
        let ins = self.computer.memory[self.location - 1];
        self.execute(ins)
    }

    /// Translate one command line into an instruction word.
    pub fn parse(&mut self, command: &str) -> (r: Result<MIXWord, Fault>)
        ensures
            *final(self) == *old(self),
            (match r {
                Ok(w) => parse_spec(command@) == Ok::<u32, Fault>(w.0),
                Err(e) => parse_spec(command@) == Err::<u32, Fault>(e),
            }),
    {
        crate::command_parser::parse(command)
    }

    /// Translate one command line and execute it.
    pub fn run(&mut self, command: &str) -> (r: Result<(), Fault>)
        requires
            old(self).wf(),
        ensures
            final(self).wf(),
            (match parse_spec(command@) {
                Ok(w) => step_spec(*old(self), *final(self), w, r),
                Err(e) => r == Err::<(), Fault>(e) && *final(self) == *old(self),
            }),
    {
        let ins = match crate::command_parser::parse(command) {
            Ok(w) => w,
            Err(e) => {
                return Err(e);
            },
        };
        self.execute(ins)
    }

    /// Translate one command line and execute it.
    pub fn run_command(&mut self, command: &str) -> (r: Result<(), Fault>)
        requires
            old(self).wf(),
        ensures
            final(self).wf(),
            (match parse_spec(command@) {
                Ok(w) => step_spec(*old(self), *final(self), w, r),
                Err(e) => r == Err::<(), Fault>(e) && *final(self) == *old(self),
            }),
    {
        self.run(command)
    }

    /// One step of a free run: fetch the instruction at the program counter,
    /// execute it, report a fault to standard output, and advance the
    /// counter unless the instruction relocated it.  A free run repeats this
    /// until the running flag clears or the counter leaves memory; faults
    /// are non-fatal to the run.
    pub fn step_in_run(&mut self) -> (r: Result<(), Fault>)
        requires
            old(self).wf(),
            old(self).location <= 3999,
        ensures
            final(self).wf(),
            ({
                let ins = old(self).computer.memory@[old(self).location as int].0;
                if relocated(*old(self), ins) {
                    step_spec(*old(self), *final(self), ins, r)
                } else {
                    final(self).location == old(self).location + 1 && step_spec(
                        *old(self),
                        (MIXCPU {
                            location: old(self).location,
                            running: final(self).running,
                            computer: final(self).computer,
                        }),
                        ins,
                        r,
                    )
                }
            }),
    {
        let ins = self.computer.memory[self.location];
        let (res, jumped) = self.execute_step(ins);
        if let Err(e) = res {
            report_fault_line(e.describe());
        }
        if !jumped {
            proof {
                lemma_step_keeps_location(*old(self), *self, ins.0, res);
            }
            self.location = self.location + 1;
        }
        res
    }

    /// Copy a field-sliced memory word into the register named by the
    /// opcode, inverting the sign for the negative-load opcodes.
    fn execute_load(&mut self, ins: MIXWord) -> (r: Result<(), Fault>)
        requires
            old(self).wf(),
            8 <= w_b5(ins.0) <= 23,
        ensures
            final(self).wf(),
            step_load(*old(self), *final(self), ins.0, r),
    {
        let address = match self.calculate_address(ins) {
            Ok(a) => a,
            Err(e) => {
                return Err(e);
            },
        };
        let f = ins.get_f();
        let left = f / 8;
        let right = f % 8;
        if !(left <= right && right <= 5) {
            return Err(Fault::UnsupportedOpcode);
        }
        let memory_data = self.computer.memory[address];
        let op = ins.get_op();
        let regnum = ((op - 8) % 8) as usize;
        let oppo = (op - 8) / 8;
        let mut value = memory_data.get_range(left, right);
        if oppo == 1 {
            let s = value.get_opposite();
            proof {
                lemma_sign_mag_bounds(value.0);
            }
            value.set_opposite(1 - s);
            proof {
                lemma_sign_mag_bounds(value.0);
                assert(value.0 == (1 - w_sign((range_slice(
                    memory_data.0,
                    left as int,
                    right as int,
                )) as u32)) * 0x8000_0000 + w_mag((range_slice(
                    memory_data.0,
                    left as int,
                    right as int,
                )) as u32));
            }
        }
        self.computer.register.set(regnum, value);
        Ok(())
    }

    /// The shared arithmetic core: add, subtract, multiply or divide the
    /// operand word against register `rega` (with `regx` holding the second
    /// half of a double-length result), in sign-magnitude arithmetic.
    fn execute_arithmetic_number(
        &mut self,
        op: u32,
        v: MIXWord,
        rega: usize,
        regx: usize,
    ) -> (r: Result<(), Fault>)
        requires
            old(self).wf(),
            1 <= op <= 4,
            rega < 9,
            regx < 9,
            op >= 3 ==> rega != regx,
        ensures
            final(self).wf(),
            only_registers_overflow_differ(*old(self), *final(self)),
            arith_num_rel(
                old(self).computer.register@,
                old(self).computer.overflow,
                final(self).computer.register@,
                final(self).computer.overflow,
                op as int,
                v.0,
                rega as int,
                regx as int,
                r,
            ),
    {
        if op == 1 || op == 2 {
            let a: i64 = self.computer.register[rega].get_value();
            let b: i64 = v.get_value();
            let s: i64 = if op == 1 {
                a + b
            } else {
                a - b
            };
            if s == 0 {
                self.computer.register.set(rega, MIXWord(0));
            } else {
                let sabs: i64 = if s < 0 {
                    -s
                } else {
                    s
                };
                let mag: u32 = (sabs % 0x4000_0000) as u32;
                let sgn: u32 = if s < 0 {
                    1
                } else {
                    0
                };
                self.computer.register.set(rega, MIXWord(sgn * 0x8000_0000 + mag));
                if sabs > 0x3fff_ffff {
                    self.computer.overflow = true;
                }
            }
            Ok(())
        } else if op == 3 {
            let a: i64 = self.computer.register[rega].get_value();
            let b: i64 = v.get_value();
            proof {
                assert(-0x8000_0000 < a < 0x8000_0000 && -0x8000_0000 < b < 0x8000_0000
                    ==> -0x4000_0000_0000_0000 < a * b < 0x4000_0000_0000_0000)
                    by (nonlinear_arith);
            }
            let prod: i64 = a * b;
            let pabs: i64 = if prod < 0 {
                -prod
            } else {
                prod
            };
            let amag: u32 = ((pabs / 0x4000_0000) % 0x8000_0000) as u32;
            let xmag: u32 = (pabs % 0x4000_0000) as u32;
            let sa = self.computer.register[rega].get_opposite();
            let sv = v.get_opposite();
            let sgn: u32 = if sa != sv {
                1
            } else {
                0
            };
            self.computer.register.set(rega, MIXWord(sgn * 0x8000_0000 + amag));
            self.computer.register.set(regx, MIXWord(sgn * 0x8000_0000 + xmag));
            Ok(())
        } else {
            let b: i64 = v.get_value();
            if b == 0 {
                return Err(Fault::DivideByZero);
            }
            let a: i64 = self.computer.register[rega].get_value();
            let x: i64 = self.computer.register[regx].get_value();
            let xabs: i64 = if x < 0 {
                -x
            } else {
                x
            };
            let d: i64 = a * 0x4000_0000 + xabs;
            let dabs: i64 = if d < 0 {
                -d
            } else {
                d
            };
            let babs: i64 = if b < 0 {
                -b
            } else {
                b
            };
            let qm: u64 = (dabs as u64) / (babs as u64);
            let rm: u64 = (dabs as u64) % (babs as u64);
            let amag: u32 = (qm % 0x8000_0000) as u32;
            let xmag: u32 = (rm % 0x8000_0000) as u32;
            let sa = self.computer.register[rega].get_opposite();
            let sv = v.get_opposite();
            let qsgn: u32 = if sa != sv {
                1
            } else {
                0
            };
            proof {
                lemma_sign_mag_bounds(self.computer.register@[rega as int].0);
            }
            self.computer.register.set(rega, MIXWord(qsgn * 0x8000_0000 + amag));
            self.computer.register.set(regx, MIXWord(sa * 0x8000_0000 + xmag));
            if qm > 0x3fff_ffff {
                self.computer.overflow = true;
            }
            Ok(())
        }
    }

    /// Perform an arithmetic instruction: add, subtract, multiply or divide
    /// the field-sliced memory operand into the accumulator.
    fn execute_arithmetic(&mut self, ins: MIXWord) -> (r: Result<(), Fault>)
        requires
            old(self).wf(),
            1 <= w_b5(ins.0) <= 4,
        ensures
            final(self).wf(),
            step_arith(*old(self), *final(self), ins.0, r),
    {
        let address = match self.calculate_address(ins) {
            Ok(a) => a,
            Err(e) => {
                return Err(e);
            },
        };
        let f = ins.get_f();
        let left = f / 8;
        let right = f % 8;
        if !(left <= right && right <= 5) {
            return Err(Fault::UnsupportedOpcode);
        }
        let v = self.computer.memory[address].get_range(left, right);
        let op = ins.get_op();
        self.execute_arithmetic_number(op, v, 0, 7)
    }

    /// Perform a transfer instruction: increase, decrease, enter or enter
    /// negative on the register named by the opcode, with the effective
    /// address as a literal operand.
    fn execute_transfer(&mut self, ins: MIXWord) -> (r: Result<(), Fault>)
        requires
            old(self).wf(),
            48 <= w_b5(ins.0) <= 55,
        ensures
            final(self).wf(),
            step_transfer(*old(self), *final(self), ins.0, r),
    {
        let m = match self.calculate_bigm(ins) {
            Ok(m) => m,
            Err(e) => {
                return Err(e);
            },
        };
        let v = MIXWord::from_value(m);
        proof {
            lemma_sign_mag_bounds(v.0);
        }
        let reg_number = (ins.get_op() - 48) as usize;
        let f = ins.get_f();
        if f == 0 {
            self.execute_arithmetic_number(1, v, reg_number, 7)
        } else if f == 1 {
            self.execute_arithmetic_number(2, v, reg_number, 7)
        } else if f == 2 {
            self.computer.register.set(reg_number, MIXWord(0));
            self.execute_arithmetic_number(1, v, reg_number, 7)
        } else if f == 3 {
            self.computer.register.set(reg_number, MIXWord(0));
            self.execute_arithmetic_number(2, v, reg_number, 7)
        } else {
            Err(Fault::UnsupportedOpcode)
        }
    }

    /// Perform a compare instruction: set the comparison indicator from the
    /// signed comparison of the named register with the addressed memory
    /// word.
    fn execute_compare(&mut self, ins: MIXWord) -> (r: Result<(), Fault>)
        requires
            old(self).wf(),
            56 <= w_b5(ins.0) <= 63,
        ensures
            final(self).wf(),
            step_compare(*old(self), *final(self), ins.0, r),
    {
        let address = match self.calculate_address(ins) {
            Ok(a) => a,
            Err(e) => {
                return Err(e);
            },
        };
        let reg_number = (ins.get_op() - 56) as usize;
        let l: i64 = self.computer.register[reg_number].get_value();
        let r_val: i64 = self.computer.memory[address].get_value();
        self.computer.comp = if l < r_val {
            Comparison::Less
        } else if l == r_val {
            Comparison::Equal
        } else {
            Comparison::Greater
        };
        Ok(())
    }

    /// Copy the field-selected bytes of the register named by the opcode
    /// into the addressed memory word; the store-zero opcode stores a zero
    /// word.
    #[verifier::rlimit(60)]
    fn execute_store(&mut self, ins: MIXWord) -> (r: Result<(), Fault>)
        requires
            old(self).wf(),
            24 <= w_b5(ins.0) <= 33,
        ensures
            final(self).wf(),
            step_store(*old(self), *final(self), ins.0, r),
    {
        let address = match self.calculate_address(ins) {
            Ok(a) => a,
            Err(e) => {
                return Err(e);
            },
        };
        let f = ins.get_f();
        let left = f / 8;
        let right = f % 8;
        if !(left <= right && right <= 5) {
            return Err(Fault::UnsupportedOpcode);
        }
        let memory_data = self.computer.memory[address];
        let op = ins.get_op();
        let reg_data = if op == 33 {
            MIXWord(0)
        } else {
            self.computer.register[(op - 24) as usize]
        };
        let ll = if left < 1 {
            1
        } else {
            left
        };
        let nb1 = if ll <= 1 && 1 <= right {
            reg_data.byte_of(5 - right + 1)
        } else {
            memory_data.byte_of(1)
        };
        let nb2 = if ll <= 2 && 2 <= right {
            reg_data.byte_of(5 - right + 2)
        } else {
            memory_data.byte_of(2)
        };
        let nb3 = if ll <= 3 && 3 <= right {
            reg_data.byte_of(5 - right + 3)
        } else {
            memory_data.byte_of(3)
        };
        let nb4 = if ll <= 4 && 4 <= right {
            reg_data.byte_of(5 - right + 4)
        } else {
            memory_data.byte_of(4)
        };
        let nb5 = if ll <= 5 && 5 <= right {
            reg_data.byte_of(5 - right + 5)
        } else {
            memory_data.byte_of(5)
        };
        let sgn = if left == 0 {
            reg_data.get_opposite()
        } else {
            memory_data.get_opposite()
        };
        proof {
            lemma_sign_mag_bounds(reg_data.0);
            lemma_sign_mag_bounds(memory_data.0);
        }
        let new_word = compose_word(sgn, nb1, nb2, nb3, nb4, nb5);
        self.computer.memory.set(address, new_word);
        Ok(())
    }
}

} // verus!

use vstd::prelude::*;

use crate::fault::Fault;
use crate::mixword::{w_aa, w_b3, w_b4, w_b5, w_sign, MIXWord};

verus! {

/// The first position of `c` in `s` at or after `i`, or -1 when there is
/// none.
pub open spec fn find_char_from(s: Seq<char>, c: char, i: int) -> int
    decreases s.len() - i,
{
    if i < 0 || i >= s.len() {
        -1
    } else if s[i] == c {
        i
    } else {
        find_char_from(s, c, i + 1)
    }
}

/// The first position of `c` in `s`, or -1.
pub open spec fn find_first(s: Seq<char>, c: char) -> int {
    find_char_from(s, c, 0)
}

/// Whether a character is a decimal digit.
pub open spec fn is_digit_char(c: char) -> bool {
    48 <= c as u32 <= 57
}

/// The first position of a digit in `s` at or after `i`, or -1.
pub open spec fn find_digit_from(s: Seq<char>, i: int) -> int
    decreases s.len() - i,
{
    if i < 0 || i >= s.len() {
        -1
    } else if is_digit_char(s[i]) {
        i
    } else {
        find_digit_from(s, i + 1)
    }
}

/// The end of the digit run starting at `i`: the first position at or after
/// `i` holding no digit, or the length.
pub open spec fn digit_run_end(s: Seq<char>, i: int) -> int
    decreases s.len() - i,
{
    if i < 0 || i >= s.len() {
        s.len() as int
    } else if !is_digit_char(s[i]) {
        i
    } else {
        digit_run_end(s, i + 1)
    }
}

/// Whether every character of `s` is a decimal digit.
pub open spec fn all_digits(s: Seq<char>) -> bool {
    forall|j: int| 0 <= j < s.len() ==> is_digit_char(s[j])
}

/// The decimal value of a digit string.
pub open spec fn dec_value(s: Seq<char>) -> int
    decreases s.len(),
{
    if s.len() == 0 {
        0
    } else {
        dec_value(s.drop_last()) * 10 + (s.last() as u32 - 48)
    }
}

/// Whether a string is a nonempty run of digits whose value fits in 32 bits:
/// exactly the strings accepted as unsigned numbers.
pub open spec fn parses_u32(s: Seq<char>) -> bool {
    s.len() > 0 && all_digits(s) && dec_value(s) <= 0xffff_ffff
}

/// Law: a digit string has a nonnegative value.
proof fn lemma_dec_value_nonneg(s: Seq<char>)
    requires
        all_digits(s),
    ensures
        dec_value(s) >= 0,
    decreases s.len(),
{
    if s.len() > 0 {
        assert(all_digits(s.drop_last()));
        lemma_dec_value_nonneg(s.drop_last());
    }
}

/// Law: a prefix of a digit string has a value no larger than the whole.
proof fn lemma_dec_value_mono(s: Seq<char>, i: int)
    requires
        all_digits(s),
        0 <= i <= s.len(),
    ensures
        dec_value(s.subrange(0, i)) <= dec_value(s),
    decreases s.len() - i,
{
    if i == s.len() {
        assert(s.subrange(0, i) =~= s);
    } else {
        lemma_dec_value_mono(s, i + 1);
        assert(s.subrange(0, i + 1).drop_last() =~= s.subrange(0, i));
        assert(all_digits(s.subrange(0, i)));
        lemma_dec_value_nonneg(s.subrange(0, i));
    }
}

/// The register code of a mnemonic character: A is the accumulator, X the
/// extension register, a digit itself; -1 for anything else.
pub open spec fn reg_code_ax(c: char) -> int {
    if c == 'A' {
        0
    } else if c == 'X' {
        7
    } else if is_digit_char(c) {
        c as u32 - 48
    } else {
        -1
    }
}

/// The register code for store mnemonics, which also know J and the zero
/// pseudo-register Z.
pub open spec fn reg_code_st(c: char) -> int {
    if c == 'A' {
        0
    } else if c == 'X' {
        7
    } else if c == 'J' {
        8
    } else if c == 'Z' {
        9
    } else if is_digit_char(c) {
        c as u32 - 48
    } else {
        -1
    }
}

/// The default modification field of a mnemonic: 2 for the store-jump
/// mnemonic, 1 for the block-move mnemonic, 5 otherwise.
pub open spec fn default_f_of(op: Seq<char>) -> int {
    if op == seq!['S', 'T', 'J'] {
        2
    } else if op == seq!['M', 'O', 'V', 'E'] {
        1
    } else {
        5
    }
}

/// The modification field parsed from the operand text: an explicit `(L:R)`
/// or `(F)` annotation when present, else the default.
pub open spec fn parse_f_spec(rest: Seq<char>, df: int) -> Result<int, Fault> {
    let lp = find_first(rest, '(');
    if lp < 0 {
        Ok(df)
    } else {
        let rp = find_first(rest, ')');
        if rp < 0 {
            Err(Fault::InvalidArgument)
        } else {
            let colon = find_first(rest, ':');
            if colon >= 0 {
                if !(lp + 1 <= colon && colon + 1 <= rp) {
                    Err(Fault::InvalidArgument)
                } else {
                    let lt = rest.subrange(lp + 1, colon);
                    let rt = rest.subrange(colon + 1, rp);
                    if parses_u32(lt) && parses_u32(rt) && dec_value(lt) * 8 + dec_value(rt)
                        <= 0xffff_ffff {
                        Ok(dec_value(lt) * 8 + dec_value(rt))
                    } else {
                        Err(Fault::InvalidArgument)
                    }
                }
            } else {
                if !(lp + 1 <= rp) {
                    Err(Fault::InvalidArgument)
                } else {
                    let vt = rest.subrange(lp + 1, rp);
                    if parses_u32(vt) {
                        Ok(dec_value(vt))
                    } else {
                        Err(Fault::InvalidArgument)
                    }
                }
            }
        }
    }
}

/// The index byte parsed from the operand text: the single digit after the
/// first comma when there is one, else 0.
pub open spec fn parse_i_spec(rest: Seq<char>) -> Result<int, Fault> {
    let comma = find_first(rest, ',');
    if comma < 0 {
        Ok(0)
    } else if comma + 2 > rest.len() {
        Err(Fault::InvalidArgument)
    } else if is_digit_char(rest[comma + 1]) {
        Ok(rest[comma + 1] as u32 - 48)
    } else {
        Err(Fault::InvalidArgument)
    }
}

/// The address parsed from the operand text: the first run of digits (an
/// all-ones sentinel when there is none, masked later to the field width),
/// and whether a minus sign appears anywhere.
pub open spec fn parse_aa_spec(rest: Seq<char>) -> Result<(int, bool), Fault> {
    let neg = find_first(rest, '-') >= 0;
    let ds = find_digit_from(rest, 0);
    if ds < 0 {
        Ok((0xffff_ffff, neg))
    } else {
        let de = digit_run_end(rest, ds);
        let run = rest.subrange(ds, de);
        if dec_value(run) <= 0xffff_ffff {
            Ok((dec_value(run), neg))
        } else {
            Err(Fault::InvalidArgument)
        }
    }
}

/// The opcode and, for compound mnemonics, the implied modification field
/// that a mnemonic maps to; `InvalidArgument` for a malformed register
/// designator, `UnknownOperation` for a mnemonic outside the table.
pub open spec fn parse_op_spec(op: Seq<char>) -> Result<(int, Option<int>), Fault> {
    if op.len() < 2 {
        Err(Fault::InvalidArgument)
    } else {
        let c0 = op[0];
        let c1 = op[1];
        if c0 == 'L' && c1 == 'D' {
            if op.len() < 3 {
                Err(Fault::InvalidArgument)
            } else {
                let rc = reg_code_ax(op[2]);
                if rc < 0 {
                    Err(Fault::InvalidArgument)
                } else if op.len() >= 4 && op[3] == 'N' {
                    Ok((16 + rc, None))
                } else {
                    Ok((8 + rc, None))
                }
            }
        } else if c0 == 'S' && c1 == 'T' {
            if op.len() < 3 {
                Err(Fault::InvalidArgument)
            } else {
                let rc = reg_code_st(op[2]);
                if rc < 0 {
                    Err(Fault::InvalidArgument)
                } else {
                    Ok((24 + rc, None))
                }
            }
        } else if c0 == 'A' && c1 == 'D' {
            Ok((1, None))
        } else if c0 == 'S' && c1 == 'U' {
            Ok((2, None))
        } else if c0 == 'M' && c1 == 'U' {
            Ok((3, None))
        } else if c0 == 'D' && c1 == 'I' {
            Ok((4, None))
        } else if (c0 == 'E' && c1 == 'N') || (c0 == 'I' && c1 == 'N') || (c0 == 'D' && c1 == 'E') {
            if op.len() == 2 {
                Ok((36, None))
            } else if op.len() < 4 {
                Err(Fault::InvalidArgument)
            } else {
                let rc = reg_code_ax(op[3]);
                if rc < 0 {
                    Err(Fault::InvalidArgument)
                } else {
                    let c2 = op[2];
                    if c0 == 'I' && c1 == 'N' && c2 == 'C' {
                        Ok((48 + rc, Some(0int)))
                    } else if c0 == 'D' && c1 == 'E' && c2 == 'C' {
                        Ok((48 + rc, Some(1int)))
                    } else if c0 == 'E' && c1 == 'N' && c2 == 'T' {
                        Ok((48 + rc, Some(2int)))
                    } else if c0 == 'E' && c1 == 'N' && c2 == 'N' {
                        Ok((48 + rc, Some(3int)))
                    } else {
                        Err(Fault::UnknownOperation)
                    }
                }
            }
        } else if c0 == 'C' && c1 == 'M' {
            if op.len() < 4 {
                Err(Fault::InvalidArgument)
            } else {
                let rc = reg_code_ax(op[3]);
                if rc < 0 {
                    Err(Fault::InvalidArgument)
                } else {
                    Ok((56 + rc, None))
                }
            }
        } else if c0 == 'J' && (c1 == 'M' || c1 == 'S' || c1 == 'O' || c1 == 'N' || c1 == 'L' || c1
            == 'G' || c1 == 'E') {
            if op == seq!['J', 'M', 'P'] {
                Ok((39, Some(0int)))
            } else if op == seq!['J', 'S', 'J'] {
                Ok((39, Some(1int)))
            } else if op == seq!['J', 'O', 'V'] {
                Ok((39, Some(2int)))
            } else if op == seq!['J', 'N', 'O', 'V'] {
                Ok((39, Some(3int)))
            } else if op == seq!['J', 'L'] {
                Ok((39, Some(4int)))
            } else if op == seq!['J', 'E'] {
                Ok((39, Some(5int)))
            } else if op == seq!['J', 'G'] {
                Ok((39, Some(6int)))
            } else if op == seq!['J', 'G', 'E'] {
                Ok((39, Some(7int)))
            } else if op == seq!['J', 'N', 'E'] {
                Ok((39, Some(8int)))
            } else if op == seq!['J', 'L', 'E'] {
                Ok((39, Some(9int)))
            } else {
                Err(Fault::UnknownOperation)
            }
        } else if c0 == 'J' && (c1 == 'A' || c1 == 'X' || (49 <= c1 as u32 <= 54)) {
            Ok((40 + reg_code_ax(c1), None))
        } else if (c0 == 'S' && c1 == 'L') || (c0 == 'S' && c1 == 'R') {
            if op == seq!['S', 'L', 'A'] {
                Ok((6, Some(0int)))
            } else if op == seq!['S', 'R', 'A'] {
                Ok((6, Some(1int)))
            } else if op == seq!['S', 'L', 'A', 'X'] {
                Ok((6, Some(2int)))
            } else if op == seq!['S', 'R', 'A', 'X'] {
                Ok((6, Some(3int)))
            } else if op == seq!['S', 'L', 'C'] {
                Ok((6, Some(4int)))
            } else if op == seq!['S', 'R', 'C'] {
                Ok((6, Some(5int)))
            } else {
                Err(Fault::UnknownOperation)
            }
        } else if c0 == 'M' && c1 == 'O' {
            Ok((7, None))
        } else if c0 == 'N' && c1 == 'O' {
            Ok((0, None))
        } else if c0 == 'H' && c1 == 'L' {
            Ok((5, Some(2int)))
        } else if c0 == 'J' && c1 == 'B' {
            Ok((34, None))
        } else if c0 == 'I' && c1 == 'O' {
            Ok((35, None))
        } else if c0 == 'O' && c1 == 'U' {
            Ok((37, None))
        } else if c0 == 'J' && c1 == 'R' {
            Ok((38, None))
        } else if c0 == 'N' && c1 == 'U' {
            Ok((5, Some(0int)))
        } else if c0 == 'C' && c1 == 'H' {
            Ok((5, Some(1int)))
        } else {
            Err(Fault::UnknownOperation)
        }
    }
}

/// The instruction word assembled from the parsed pieces, each masked to its
/// field.
pub open spec fn assemble_word(neg: bool, aa: int, iv: int, ff: int, c: int) -> int {
    (if neg {
        1int
    } else {
        0int
    }) * 0x8000_0000 + (aa % 4096) * 0x4_0000 + (iv % 64) * 0x1000 + (ff % 64) * 64 + c % 64
}

/// What `parse` yields for a command line: the mnemonic before the first
/// space maps to an opcode and perhaps an implied field; the operand text
/// after it gives the field annotation, the index suffix, the address digits
/// and the sign.
pub open spec fn parse_spec(s: Seq<char>) -> Result<u32, Fault> {
    let sp = find_first(s, ' ');
    if sp < 0 {
        Err(Fault::InvalidArgument)
    } else {
        let op = s.subrange(0, sp);
        let rest = s.subrange(sp + 1, s.len() as int);
        let df = default_f_of(op);
        match parse_f_spec(rest, df) {
            Err(e) => Err(e),
            Ok(f0) => match parse_i_spec(rest) {
                Err(e) => Err(e),
                Ok(iv) => match parse_aa_spec(rest) {
                    Err(e) => Err(e),
                    Ok(aa_neg) => match parse_op_spec(op) {
                        Err(e) => Err(e),
                        Ok(c_fo) => {
                            let ff = match c_fo.1 {
                                Some(x) => x,
                                None => f0,
                            };
                            Ok(assemble_word(aa_neg.1, aa_neg.0, iv, ff, c_fo.0) as u32)
                        },
                    },
                },
            },
        }
    }
}

/// The characters of a string, as a vector.
fn chars_of(s: &str) -> (v: Vec<char>)
    ensures
        v@ == s@,
{
    let n = s.unicode_len();
    let mut v: Vec<char> = Vec::new();
    let mut i: usize = 0;
    while i < n
        invariant
            i <= n,
            n == s@.len(),
            v@ == s@.subrange(0, i as int),
        decreases n - i,
    {
        let c = s.get_char(i);
        v.push(c);
        proof {
            assert(v@ =~= s@.subrange(0, i + 1));
        }
        i = i + 1;
    }
    proof {
        assert(v@ =~= s@);
    }
    v
}

/// The characters of `v` from `from` (inclusive) to `to` (exclusive).
fn sub_chars(v: &Vec<char>, from: usize, to: usize) -> (r: Vec<char>)
    requires
        from <= to <= v@.len(),
    ensures
        r@ == v@.subrange(from as int, to as int),
{
    let mut r: Vec<char> = Vec::new();
    let mut i: usize = from;
    while i < to
        invariant
            from <= i <= to <= v@.len(),
            r@ == v@.subrange(from as int, i as int),
        decreases to - i,
    {
        r.push(v[i]);
        proof {
            assert(r@ =~= v@.subrange(from as int, i + 1));
        }
        i = i + 1;
    }
    r
}

/// The first position of `c` in `v`, if any.
fn find_char(v: &Vec<char>, c: char) -> (r: Option<usize>)
    ensures
        (match r {
            Some(i) => find_first(v@, c) == i && i < v@.len() && v@[i as int] == c,
            None => find_first(v@, c) == -1,
        }),
{
    let mut i: usize = v.len();
    let mut r: Option<usize> = None;
    while i > 0
        invariant
            i <= v@.len(),
            (match r {
                Some(j) => find_char_from(v@, c, i as int) == j && j < v@.len() && v@[j as int]
                    == c,
                None => find_char_from(v@, c, i as int) == -1,
            }),
        decreases i,
    {
        i = i - 1;
        if v[i] == c {
            r = Some(i);
        }
    }
    r
}

/// The first position of a decimal digit in `v`, if any.
fn find_digit(v: &Vec<char>) -> (r: Option<usize>)
    ensures
        (match r {
            Some(i) => find_digit_from(v@, 0) == i && i < v@.len() && is_digit_char(v@[i as int]),
            None => find_digit_from(v@, 0) == -1,
        }),
{
    let mut i: usize = v.len();
    let mut r: Option<usize> = None;
    while i > 0
        invariant
            i <= v@.len(),
            (match r {
                Some(j) => find_digit_from(v@, i as int) == j && j < v@.len() && is_digit_char(
                    v@[j as int],
                ),
                None => find_digit_from(v@, i as int) == -1,
            }),
        decreases i,
    {
        i = i - 1;
        let c32 = v[i] as u32;
        if 48 <= c32 && c32 <= 57 {
            r = Some(i);
        }
    }
    r
}

/// The end of the digit run starting at `from`.
fn run_end(v: &Vec<char>, from: usize) -> (r: usize)
    requires
        from <= v@.len(),
    ensures
        r == digit_run_end(v@, from as int),
        from <= r <= v@.len(),
    decreases v@.len() - from,
{
    if from >= v.len() {
        v.len()
    } else {
        let c32 = v[from] as u32;
        if 48 <= c32 && c32 <= 57 {
            run_end(v, from + 1)
        } else {
            from
        }
    }
}

/// The unsigned number written in `v` between `from` and `to`, when that
/// slice is a nonempty digit run whose value fits in 32 bits.
fn parse_u32_range(v: &Vec<char>, from: usize, to: usize) -> (r: Result<u32, Fault>)
    requires
        from <= to <= v@.len(),
    ensures
        (match r {
            Ok(x) => parses_u32(v@.subrange(from as int, to as int)) && x == dec_value(
                v@.subrange(from as int, to as int),
            ),
            Err(e) => e == Fault::InvalidArgument && !parses_u32(
                v@.subrange(from as int, to as int),
            ),
        }),
{
    let ghost s = v@.subrange(from as int, to as int);
    if from == to {
        return Err(Fault::InvalidArgument);
    }
    let mut val: u64 = 0;
    let mut i: usize = from;
    while i < to
        invariant
            from <= i <= to <= v@.len(),
            s == v@.subrange(from as int, to as int),
            from < to,
            all_digits(s.subrange(0, i - from)),
            val == dec_value(s.subrange(0, i - from)),
            val <= 0xffff_ffff,
        decreases to - i,
    {
        let c32 = v[i] as u32;
        if !(48 <= c32 && c32 <= 57) {
            proof {
                assert(s[i - from] == v@[i as int]);
                assert(!is_digit_char(s[i - from]));
            }
            return Err(Fault::InvalidArgument);
        }
        let val2: u64 = val * 10 + ((c32 - 48) as u64);
        proof {
            assert(s.subrange(0, i - from + 1).drop_last() =~= s.subrange(0, i - from));
            assert(s.subrange(0, i - from + 1).last() == v@[i as int]);
        }
        if val2 > 0xffff_ffff {
            proof {
                if all_digits(s) {
                    lemma_dec_value_mono(s, i - from + 1);
                }
            }
            return Err(Fault::InvalidArgument);
        }
        val = val2;
        i = i + 1;
    }
    proof {
        assert(s.subrange(0, to - from) =~= s);
    }
    Ok(val as u32)
}

/// Translate one command line into an instruction word.
///
/// The mnemonic before the first space chooses the opcode and its default
/// or implied modification field; the operand text supplies an optional
/// `(L:R)` or `(F)` field annotation, an optional `,I` index suffix, the
/// first run of digits as the address, and `-` anywhere as a negative sign.
pub fn parse(command: &str) -> (r: Result<MIXWord, Fault>)
    ensures
        (match r {
            Ok(w) => parse_spec(command@) == Ok::<u32, Fault>(w.0),
            Err(e) => parse_spec(command@) == Err::<u32, Fault>(e),
        }),
{
    let v = chars_of(command);
    let sp = match find_char(&v, ' ') {
        Some(i) => i,
        None => {
            return Err(Fault::InvalidArgument);
        },
    };
    let total = v.len();
    proof {
        assert(sp < total);
    }
    let op = sub_chars(&v, 0, sp);
    let rest = sub_chars(&v, sp + 1, total);

    // Default modification field.
    let df: u32 = if op.len() == 3 && op[0] == 'S' && op[1] == 'T' && op[2] == 'J' {
        proof {
            assert(op@ =~= seq!['S', 'T', 'J']);
        }
        2
    } else if op.len() == 4 && op[0] == 'M' && op[1] == 'O' && op[2] == 'V' && op[3] == 'E' {
        proof {
            assert(op@ =~= seq!['M', 'O', 'V', 'E']);
        }
        1
    } else {
        proof {
            assert(op@ != seq!['S', 'T', 'J'] && op@ != seq!['M', 'O', 'V', 'E']);
        }
        5
    };

    let f0: u32 = match parse_f_exec(&rest, df) {
        Ok(f) => f,
        Err(e) => {
            return Err(e);
        },
    };
    let iv: u32 = match parse_i_exec(&rest) {
        Ok(i) => i,
        Err(e) => {
            return Err(e);
        },
    };
    let (aa, neg) = match parse_aa_exec(&rest) {
        Ok(p) => p,
        Err(e) => {
            return Err(e);
        },
    };
    let (opcode, fo) = match parse_op_exec(&op) {
        Ok(p) => p,
        Err(e) => {
            return Err(e);
        },
    };
    let ff: u32 = match fo {
        Some(x) => x,
        None => f0,
    };
    let sgn: u32 = if neg {
        1
    } else {
        0
    };
    let word: u32 = sgn * 0x8000_0000 + (aa % 4096) * 0x4_0000 + (iv % 64) * 0x1000 + (ff % 64)
        * 64 + opcode % 64;
    Ok(MIXWord(word))
}

/// The explicit or default modification field of the operand text.
fn parse_f_exec(rest: &Vec<char>, df: u32) -> (r: Result<u32, Fault>)
    ensures
        (match r {
            Ok(x) => parse_f_spec(rest@, df as int) == Ok::<int, Fault>(x as int),
            Err(e) => parse_f_spec(rest@, df as int) == Err::<int, Fault>(e),
        }),
{
    let lp = match find_char(rest, '(') {
        Some(i) => i,
        None => {
            return Ok(df);
        },
    };
    let rp = match find_char(rest, ')') {
        Some(i) => i,
        None => {
            return Err(Fault::InvalidArgument);
        },
    };
    let n = rest.len();
    match find_char(rest, ':') {
        Some(colon) => {
            proof {
                assert(lp < n && colon < n && rp < n);
            }
            if !(lp + 1 <= colon && colon + 1 <= rp) {
                return Err(Fault::InvalidArgument);
            }
            let left = match parse_u32_range(rest, lp + 1, colon) {
                Ok(x) => x,
                Err(e) => {
                    return Err(e);
                },
            };
            let right = match parse_u32_range(rest, colon + 1, rp) {
                Ok(x) => x,
                Err(e) => {
                    return Err(e);
                },
            };
            let total: u64 = (left as u64) * 8 + (right as u64);
            if total > 0xffff_ffff {
                return Err(Fault::InvalidArgument);
            }
            Ok(total as u32)
        },
        None => {
            if !(lp + 1 <= rp) {
                return Err(Fault::InvalidArgument);
            }
            match parse_u32_range(rest, lp + 1, rp) {
                Ok(x) => Ok(x),
                Err(e) => Err(e),
            }
        },
    }
}

/// The index byte of the operand text: the single digit after the comma.
fn parse_i_exec(rest: &Vec<char>) -> (r: Result<u32, Fault>)
    ensures
        (match r {
            Ok(x) => parse_i_spec(rest@) == Ok::<int, Fault>(x as int),
            Err(e) => parse_i_spec(rest@) == Err::<int, Fault>(e),
        }),
{
    let comma = match find_char(rest, ',') {
        Some(i) => i,
        None => {
            return Ok(0);
        },
    };
    if comma >= rest.len() - 1 {
        return Err(Fault::InvalidArgument);
    }
    let c32 = rest[comma + 1] as u32;
    if 48 <= c32 && c32 <= 57 {
        Ok(c32 - 48)
    } else {
        Err(Fault::InvalidArgument)
    }
}

/// The address digits and the sign marker of the operand text.
fn parse_aa_exec(rest: &Vec<char>) -> (r: Result<(u32, bool), Fault>)
    ensures
        (match r {
            Ok(p) => parse_aa_spec(rest@) == Ok::<(int, bool), Fault>((p.0 as int, p.1)),
            Err(e) => parse_aa_spec(rest@) == Err::<(int, bool), Fault>(e),
        }),
{
    let neg = match find_char(rest, '-') {
        Some(_) => true,
        None => false,
    };
    let ds = match find_digit(rest) {
        Some(i) => i,
        None => {
            return Ok((0xffff_ffff, neg));
        },
    };
    let de = run_end(rest, ds);
    match parse_u32_range(rest, ds, de) {
        Ok(x) => Ok((x, neg)),
        Err(e) => {
            proof {
                lemma_run_is_digits(rest@, ds as int);
            }
            Err(e)
        },
    }
}

/// Law: a digit run is made of digits and, when it starts at a digit, is
/// nonempty.
proof fn lemma_run_is_digits(s: Seq<char>, i: int)
    requires
        0 <= i <= s.len(),
    ensures
        i <= digit_run_end(s, i) <= s.len(),
        all_digits(s.subrange(i, digit_run_end(s, i))),
        i < s.len() && is_digit_char(s[i]) ==> digit_run_end(s, i) > i,
    decreases s.len() - i,
{
    let e = digit_run_end(s, i);
    if i < s.len() && is_digit_char(s[i]) {
        lemma_run_is_digits(s, i + 1);
        assert(e == digit_run_end(s, i + 1));
        let tail = s.subrange(i + 1, e);
        assert(all_digits(tail));
        assert forall|j: int| 0 <= j < e - i implies is_digit_char(s.subrange(i, e)[j]) by {
            assert(s.subrange(i, e)[j] == s[i + j]);
            if j == 0 {
                assert(is_digit_char(s[i]));
            } else {
                assert(tail[j - 1] == s[i + 1 + (j - 1)]);
                assert(is_digit_char(tail[j - 1]));
            }
        }
    } else {
        assert(s.subrange(i, e) =~= Seq::<char>::empty());
    }
}

/// The opcode and implied field of a mnemonic.
fn parse_op_exec(op: &Vec<char>) -> (r: Result<(u32, Option<u32>), Fault>)
    ensures
        (match r {
            Ok(p) => parse_op_spec(op@) == Ok::<(int, Option<int>), Fault>(
                (
                    p.0 as int,
                    match p.1 {
                        Some(x) => Some(x as int),
                        None => None,
                    },
                ),
            ),
            Err(e) => parse_op_spec(op@) == Err::<(int, Option<int>), Fault>(e),
        }),
{
    let n = op.len();
    if n < 2 {
        return Err(Fault::InvalidArgument);
    }
    let c0 = op[0];
    let c1 = op[1];
    if c0 == 'L' && c1 == 'D' {
        if n < 3 {
            return Err(Fault::InvalidArgument);
        }
        let rc = match reg_ax(op[2]) {
            Some(x) => x,
            None => {
                return Err(Fault::InvalidArgument);
            },
        };
        if n >= 4 && op[3] == 'N' {
            Ok((16 + rc, None))
        } else {
            Ok((8 + rc, None))
        }
    } else if c0 == 'S' && c1 == 'T' {
        if n < 3 {
            return Err(Fault::InvalidArgument);
        }
        let rc = match reg_st(op[2]) {
            Some(x) => x,
            None => {
                return Err(Fault::InvalidArgument);
            },
        };
        Ok((24 + rc, None))
    } else if c0 == 'A' && c1 == 'D' {
        Ok((1, None))
    } else if c0 == 'S' && c1 == 'U' {
        Ok((2, None))
    } else if c0 == 'M' && c1 == 'U' {
        Ok((3, None))
    } else if c0 == 'D' && c1 == 'I' {
        Ok((4, None))
    } else if (c0 == 'E' && c1 == 'N') || (c0 == 'I' && c1 == 'N') || (c0 == 'D' && c1 == 'E') {
        if n == 2 {
            return Ok((36, None));
        }
        if n < 4 {
            return Err(Fault::InvalidArgument);
        }
        let rc = match reg_ax(op[3]) {
            Some(x) => x,
            None => {
                return Err(Fault::InvalidArgument);
            },
        };
        let c2 = op[2];
        if c0 == 'I' && c1 == 'N' && c2 == 'C' {
            Ok((48 + rc, Some(0)))
        } else if c0 == 'D' && c1 == 'E' && c2 == 'C' {
            Ok((48 + rc, Some(1)))
        } else if c0 == 'E' && c1 == 'N' && c2 == 'T' {
            Ok((48 + rc, Some(2)))
        } else if c0 == 'E' && c1 == 'N' && c2 == 'N' {
            Ok((48 + rc, Some(3)))
        } else {
            Err(Fault::UnknownOperation)
        }
    } else if c0 == 'C' && c1 == 'M' {
        if n < 4 {
            return Err(Fault::InvalidArgument);
        }
        let rc = match reg_ax(op[3]) {
            Some(x) => x,
            None => {
                return Err(Fault::InvalidArgument);
            },
        };
        Ok((56 + rc, None))
    } else if c0 == 'J' && (c1 == 'M' || c1 == 'S' || c1 == 'O' || c1 == 'N' || c1 == 'L' || c1
        == 'G' || c1 == 'E') {
        let f: u32 = if n == 3 && c1 == 'M' && op[2] == 'P' {
            0
        } else if n == 3 && c1 == 'S' && op[2] == 'J' {
            1
        } else if n == 3 && c1 == 'O' && op[2] == 'V' {
            2
        } else if n == 4 && c1 == 'N' && op[2] == 'O' && op[3] == 'V' {
            3
        } else if n == 2 && c1 == 'L' {
            4
        } else if n == 2 && c1 == 'E' {
            5
        } else if n == 2 && c1 == 'G' {
            6
        } else if n == 3 && c1 == 'G' && op[2] == 'E' {
            7
        } else if n == 3 && c1 == 'N' && op[2] == 'E' {
            8
        } else if n == 3 && c1 == 'L' && op[2] == 'E' {
            9
        } else {
            return Err(Fault::UnknownOperation);
        };
        proof {
            lemma_jump_mnemonic(op@, f as int);
        }
        Ok((39, Some(f)))
    } else if c0 == 'J' && (c1 == 'A' || c1 == 'X' || {
        let c132 = c1 as u32;
        49 <= c132 && c132 <= 54
    }) {
        let rc = match reg_ax(c1) {
            Some(x) => x,
            None => {
                return Err(Fault::UnknownOperation);
            },
        };
        Ok((40 + rc, None))
    } else if (c0 == 'S' && c1 == 'L') || (c0 == 'S' && c1 == 'R') {
        let f: u32 = if n == 3 && c1 == 'L' && op[2] == 'A' {
            0
        } else if n == 3 && c1 == 'R' && op[2] == 'A' {
            1
        } else if n == 4 && c1 == 'L' && op[2] == 'A' && op[3] == 'X' {
            2
        } else if n == 4 && c1 == 'R' && op[2] == 'A' && op[3] == 'X' {
            3
        } else if n == 3 && c1 == 'L' && op[2] == 'C' {
            4
        } else if n == 3 && c1 == 'R' && op[2] == 'C' {
            5
        } else {
            return Err(Fault::UnknownOperation);
        };
        proof {
            lemma_shift_mnemonic(op@, f as int);
        }
        Ok((6, Some(f)))
    } else if c0 == 'M' && c1 == 'O' {
        Ok((7, None))
    } else if c0 == 'N' && c1 == 'O' {
        Ok((0, None))
    } else if c0 == 'H' && c1 == 'L' {
        Ok((5, Some(2)))
    } else if c0 == 'J' && c1 == 'B' {
        Ok((34, None))
    } else if c0 == 'I' && c1 == 'O' {
        Ok((35, None))
    } else if c0 == 'O' && c1 == 'U' {
        Ok((37, None))
    } else if c0 == 'J' && c1 == 'R' {
        Ok((38, None))
    } else if c0 == 'N' && c1 == 'U' {
        Ok((5, Some(0)))
    } else if c0 == 'C' && c1 == 'H' {
        Ok((5, Some(1)))
    } else {
        Err(Fault::UnknownOperation)
    }
}

/// Law: the jump mnemonic comparisons of the executable code pick out
/// exactly the sequences of the table.
proof fn lemma_jump_mnemonic(op: Seq<char>, f: int)
    requires
        op.len() >= 2,
        f == 0 ==> op.len() == 3 && op[1] == 'M' && op[2] == 'P',
        f == 1 ==> op.len() == 3 && op[1] == 'S' && op[2] == 'J',
        f == 2 ==> op.len() == 3 && op[1] == 'O' && op[2] == 'V',
        f == 3 ==> op.len() == 4 && op[1] == 'N' && op[2] == 'O' && op[3] == 'V',
        f == 4 ==> op.len() == 2 && op[1] == 'L',
        f == 5 ==> op.len() == 2 && op[1] == 'E',
        f == 6 ==> op.len() == 2 && op[1] == 'G',
        f == 7 ==> op.len() == 3 && op[1] == 'G' && op[2] == 'E',
        f == 8 ==> op.len() == 3 && op[1] == 'N' && op[2] == 'E',
        f == 9 ==> op.len() == 3 && op[1] == 'L' && op[2] == 'E',
        0 <= f <= 9,
        op[0] == 'J',
    ensures
        f == 0 ==> op =~= seq!['J', 'M', 'P'],
        f == 1 ==> op =~= seq!['J', 'S', 'J'],
        f == 2 ==> op =~= seq!['J', 'O', 'V'],
        f == 3 ==> op =~= seq!['J', 'N', 'O', 'V'],
        f == 4 ==> op =~= seq!['J', 'L'],
        f == 5 ==> op =~= seq!['J', 'E'],
        f == 6 ==> op =~= seq!['J', 'G'],
        f == 7 ==> op =~= seq!['J', 'G', 'E'],
        f == 8 ==> op =~= seq!['J', 'N', 'E'],
        f == 9 ==> op =~= seq!['J', 'L', 'E'],
{
}

/// Law: the shift mnemonic comparisons of the executable code pick out
/// exactly the sequences of the table.
proof fn lemma_shift_mnemonic(op: Seq<char>, f: int)
    requires
        op.len() >= 2,
        f == 0 ==> op.len() == 3 && op[1] == 'L' && op[2] == 'A',
        f == 1 ==> op.len() == 3 && op[1] == 'R' && op[2] == 'A',
        f == 2 ==> op.len() == 4 && op[1] == 'L' && op[2] == 'A' && op[3] == 'X',
        f == 3 ==> op.len() == 4 && op[1] == 'R' && op[2] == 'A' && op[3] == 'X',
        f == 4 ==> op.len() == 3 && op[1] == 'L' && op[2] == 'C',
        f == 5 ==> op.len() == 3 && op[1] == 'R' && op[2] == 'C',
        0 <= f <= 5,
        op[0] == 'S',
    ensures
        f == 0 ==> op =~= seq!['S', 'L', 'A'],
        f == 1 ==> op =~= seq!['S', 'R', 'A'],
        f == 2 ==> op =~= seq!['S', 'L', 'A', 'X'],
        f == 3 ==> op =~= seq!['S', 'R', 'A', 'X'],
        f == 4 ==> op =~= seq!['S', 'L', 'C'],
        f == 5 ==> op =~= seq!['S', 'R', 'C'],
{
}

/// The register code of an A, X or digit designator.
fn reg_ax(c: char) -> (r: Option<u32>)
    ensures
        (match r {
            Some(x) => reg_code_ax(c) == x as int,
            None => reg_code_ax(c) < 0,
        }),
{
    if c == 'A' {
        Some(0)
    } else if c == 'X' {
        Some(7)
    } else {
        let c32 = c as u32;
        if 48 <= c32 && c32 <= 57 {
            Some(c32 - 48)
        } else {
            None
        }
    }
}

/// The register code of an A, X, J, Z or digit designator.
fn reg_st(c: char) -> (r: Option<u32>)
    ensures
        (match r {
            Some(x) => reg_code_st(c) == x as int,
            None => reg_code_st(c) < 0,
        }),
{
    if c == 'A' {
        Some(0)
    } else if c == 'X' {
        Some(7)
    } else if c == 'J' {
        Some(8)
    } else if c == 'Z' {
        Some(9)
    } else {
        let c32 = c as u32;
        if 48 <= c32 && c32 <= 57 {
            Some(c32 - 48)
        } else {
            None
        }
    }
}


/// The character of a decimal digit.
pub open spec fn digit_char(d: int) -> char {
    if d == 0 {
        '0'
    } else if d == 1 {
        '1'
    } else if d == 2 {
        '2'
    } else if d == 3 {
        '3'
    } else if d == 4 {
        '4'
    } else if d == 5 {
        '5'
    } else if d == 6 {
        '6'
    } else if d == 7 {
        '7'
    } else if d == 8 {
        '8'
    } else {
        '9'
    }
}

/// The decimal rendering of a nonnegative number, without leading zeroes.
pub open spec fn dec_chars(n: int) -> Seq<char>
    decreases n,
{
    if n < 10 {
        seq![digit_char(n)]
    } else {
        dec_chars(n / 10).push(digit_char(n % 10))
    }
}

/// The character naming a register in a mnemonic: A, X, J or Z for the
/// accumulator, extension, jump and zero registers, a digit for the index
/// registers.
pub open spec fn reg_char_of(x: int) -> char {
    if x == 0 {
        'A'
    } else if x == 7 {
        'X'
    } else if x == 8 {
        'J'
    } else if x == 9 {
        'Z'
    } else {
        digit_char(x)
    }
}

/// The mnemonic of an opcode and field, with that mnemonic's default field;
/// `UnsupportedOpcode` for a field pattern outside the table.
pub open spec fn mnemonic_of(op: int, f: int) -> Result<(Seq<char>, int), Fault> {
    if op == 0 {
        Ok((seq!['N', 'O', 'P'], 5))
    } else if op == 1 {
        Ok((seq!['A', 'D', 'D'], 5))
    } else if op == 2 {
        Ok((seq!['S', 'U', 'B'], 5))
    } else if op == 3 {
        Ok((seq!['M', 'U', 'L'], 5))
    } else if op == 4 {
        Ok((seq!['D', 'I', 'V'], 5))
    } else if op == 5 {
        if f == 0 {
            Ok((seq!['N', 'U', 'M'], 5))
        } else if f == 1 {
            Ok((seq!['C', 'H', 'A', 'R'], 5))
        } else if f == 2 {
            Ok((seq!['H', 'L', 'T'], 5))
        } else {
            Err(Fault::UnsupportedOpcode)
        }
    } else if op == 6 {
        if f == 0 {
            Ok((seq!['S', 'L', 'A'], 5))
        } else if f == 1 {
            Ok((seq!['S', 'R', 'A'], 5))
        } else if f == 2 {
            Ok((seq!['S', 'L', 'A', 'X'], 5))
        } else if f == 3 {
            Ok((seq!['S', 'R', 'A', 'X'], 5))
        } else if f == 4 {
            Ok((seq!['S', 'L', 'C'], 5))
        } else if f == 5 {
            Ok((seq!['S', 'R', 'C'], 5))
        } else {
            Err(Fault::UnsupportedOpcode)
        }
    } else if op == 7 {
        Ok((seq!['M', 'O', 'V', 'E'], 1))
    } else if 8 <= op <= 15 {
        Ok((seq!['L', 'D'].push(reg_char_of(op - 8)), 5))
    } else if 16 <= op <= 23 {
        Ok((seq!['L', 'D'].push(reg_char_of(op - 16)).push('N'), 5))
    } else if 24 <= op <= 33 {
        Ok((seq!['S', 'T'].push(reg_char_of(op - 24)), if op == 32 { 2int } else { 5int }))
    } else if op == 34 {
        Ok((seq!['J', 'B', 'U', 'S'], 5))
    } else if op == 35 {
        Ok((seq!['I', 'O', 'C'], 5))
    } else if op == 36 {
        Ok((seq!['I', 'N'], 5))
    } else if op == 37 {
        Ok((seq!['O', 'U', 'T'], 5))
    } else if op == 38 {
        Ok((seq!['J', 'R', 'E', 'D'], 5))
    } else if op == 39 {
        Ok((seq!['J', 'M', 'P'], 5))
    } else if 40 <= op <= 47 {
        Ok((seq!['J'].push(reg_char_of(op - 40)), 5))
    } else if 48 <= op <= 55 {
        if f == 0 {
            Ok((seq!['I', 'N', 'C'].push(reg_char_of(op - 48)), 5))
        } else if f == 1 {
            Ok((seq!['D', 'E', 'C'].push(reg_char_of(op - 48)), 5))
        } else if f == 2 {
            Ok((seq!['E', 'N', 'T'].push(reg_char_of(op - 48)), 5))
        } else if f == 3 {
            Ok((seq!['E', 'N', 'N'].push(reg_char_of(op - 48)), 5))
        } else {
            Err(Fault::UnsupportedOpcode)
        }
    } else {
        Ok((seq!['C', 'M', 'P'].push(reg_char_of(op - 56)), 5))
    }
}

/// The textual rendering of an instruction word: the mnemonic, a minus
/// marker for a negative word, the address, the index suffix when the index
/// byte is set, and the field annotation when the field differs from the
/// mnemonic's default.
pub open spec fn render_spec(w: u32) -> Result<Seq<char>, Fault> {
    match mnemonic_of(w_b5(w), w_b4(w)) {
        Err(e) => Err(e),
        Ok(m_df) => {
            let s1 = if w_sign(w) == 1 {
                m_df.0.push('-')
            } else {
                m_df.0
            };
            let s2 = s1.push(' ') + dec_chars(w_aa(w));
            let s3 = if w_b3(w) != 0 {
                s2.push(',') + dec_chars(w_b3(w))
            } else {
                s2
            };
            let s4 = if w_b4(w) != m_df.1 {
                (s3.push('(') + dec_chars(w_b4(w))).push(')')
            } else {
                s3
            };
            Ok(s4)
        },
    }
}

/// The character of one decimal digit.
fn digit_char_exec(d: u32) -> (c: char)
    ensures
        c == digit_char(d as int),
{
    if d == 0 {
        '0'
    } else if d == 1 {
        '1'
    } else if d == 2 {
        '2'
    } else if d == 3 {
        '3'
    } else if d == 4 {
        '4'
    } else if d == 5 {
        '5'
    } else if d == 6 {
        '6'
    } else if d == 7 {
        '7'
    } else if d == 8 {
        '8'
    } else {
        '9'
    }
}

/// Append the decimal rendering of a number.
fn push_dec(out: &mut Vec<char>, n: u32)
    ensures
        final(out)@ == old(out)@ + dec_chars(n as int),
    decreases n,
{
    if n < 10 {
        out.push(digit_char_exec(n));
        proof {
            assert(out@ =~= old(out)@ + dec_chars(n as int));
        }
    } else {
        push_dec(out, n / 10);
        out.push(digit_char_exec(n % 10));
        proof {
            assert(out@ =~= old(out)@ + dec_chars(n as int));
        }
    }
}

/// Append the register character of a mnemonic.
fn push_reg_char(out: &mut Vec<char>, x: u32)
    ensures
        final(out)@ == old(out)@.push(reg_char_of(x as int)),
{
    if x == 0 {
        out.push('A');
    } else if x == 7 {
        out.push('X');
    } else if x == 8 {
        out.push('J');
    } else if x == 9 {
        out.push('Z');
    } else {
        out.push(digit_char_exec(x));
    }
}

/// Turns a character vector into a string.
/// Relies on `String`'s `FromIterator` over characters: the string holds
/// exactly the characters given, in order.
#[verifier::external_body]
fn string_of_chars(v: &Vec<char>) -> (r: String)
    ensures
        r@ == v@,
{
    v.iter().collect()
}

/// Render an instruction word as command text: the inverse of `parse`, up
/// to an explicit field annotation equal to the mnemonic's default.
pub fn format_instruction(w: MIXWord) -> (r: Result<String, Fault>)
    ensures
        (match r {
            Ok(s) => render_spec(w.0) == Ok::<Seq<char>, Fault>(s@),
            Err(e) => render_spec(w.0) == Err::<Seq<char>, Fault>(e),
        }),
{
    let op = w.get_op();
    let f = w.get_f();
    let i = w.get_i();
    let aa = w.get_aa();
    let sgn = w.get_opposite();
    let mut out: Vec<char> = Vec::new();
    let mut df: u32 = 5;
    if op == 0 {
        out.push('N');
        out.push('O');
        out.push('P');
    } else if op == 1 {
        out.push('A');
        out.push('D');
        out.push('D');
    } else if op == 2 {
        out.push('S');
        out.push('U');
        out.push('B');
    } else if op == 3 {
        out.push('M');
        out.push('U');
        out.push('L');
    } else if op == 4 {
        out.push('D');
        out.push('I');
        out.push('V');
    } else if op == 5 {
        if f == 0 {
            out.push('N');
            out.push('U');
            out.push('M');
        } else if f == 1 {
            out.push('C');
            out.push('H');
            out.push('A');
            out.push('R');
        } else if f == 2 {
            out.push('H');
            out.push('L');
            out.push('T');
        } else {
            return Err(Fault::UnsupportedOpcode);
        }
    } else if op == 6 {
        if f == 0 {
            out.push('S');
            out.push('L');
            out.push('A');
        } else if f == 1 {
            out.push('S');
            out.push('R');
            out.push('A');
        } else if f == 2 {
            out.push('S');
            out.push('L');
            out.push('A');
            out.push('X');
        } else if f == 3 {
            out.push('S');
            out.push('R');
            out.push('A');
            out.push('X');
        } else if f == 4 {
            out.push('S');
            out.push('L');
            out.push('C');
        } else if f == 5 {
            out.push('S');
            out.push('R');
            out.push('C');
        } else {
            return Err(Fault::UnsupportedOpcode);
        }
    } else if op == 7 {
        out.push('M');
        out.push('O');
        out.push('V');
        out.push('E');
        df = 1;
    } else if op <= 15 {
        out.push('L');
        out.push('D');
        push_reg_char(&mut out, op - 8);
    } else if op <= 23 {
        out.push('L');
        out.push('D');
        push_reg_char(&mut out, op - 16);
        out.push('N');
    } else if op <= 33 {
        out.push('S');
        out.push('T');
        push_reg_char(&mut out, op - 24);
        if op == 32 {
            df = 2;
        }
    } else if op == 34 {
        out.push('J');
        out.push('B');
        out.push('U');
        out.push('S');
    } else if op == 35 {
        out.push('I');
        out.push('O');
        out.push('C');
    } else if op == 36 {
        out.push('I');
        out.push('N');
    } else if op == 37 {
        out.push('O');
        out.push('U');
        out.push('T');
    } else if op == 38 {
        out.push('J');
        out.push('R');
        out.push('E');
        out.push('D');
    } else if op == 39 {
        out.push('J');
        out.push('M');
        out.push('P');
    } else if op <= 47 {
        out.push('J');
        push_reg_char(&mut out, op - 40);
    } else if op <= 55 {
        if f == 0 {
            out.push('I');
            out.push('N');
            out.push('C');
        } else if f == 1 {
            out.push('D');
            out.push('E');
            out.push('C');
        } else if f == 2 {
            out.push('E');
            out.push('N');
            out.push('T');
        } else if f == 3 {
            out.push('E');
            out.push('N');
            out.push('N');
        } else {
            return Err(Fault::UnsupportedOpcode);
        }
        push_reg_char(&mut out, op - 48);
    } else {
        out.push('C');
        out.push('M');
        out.push('P');
        push_reg_char(&mut out, op - 56);
    }
    proof {
        assert(mnemonic_of(w_b5(w.0) as int, w_b4(w.0) as int) matches Ok(p) && out@ =~= p.0
            && df == p.1);
    }
    if sgn == 1 {
        out.push('-');
    }
    out.push(' ');
    push_dec(&mut out, aa);
    if i != 0 {
        out.push(',');
        push_dec(&mut out, i);
    }
    if f != df {
        out.push('(');
        push_dec(&mut out, f);
        out.push(')');
    }
    Ok(string_of_chars(&out))
}

} // verus!

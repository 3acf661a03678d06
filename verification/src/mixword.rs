use vstd::prelude::*;

verus! {

/// One machine word: a sign bit and five six-bit bytes packed into a `u32`.
///
/// Read as an instruction the layout is `sign | AA(12) | I(6) | F(6) | C(6)`;
/// read as data it is `sign | b1 | b2 | b3 | b4 | b5`, six bits each.  The
/// two views share storage: `(b1, b2)` together are the address field `AA`.
/// The magnitude occupies the low 31 bits; the sign is bit 31 alone.
#[derive(Clone, Copy, PartialEq, Eq, Structural, Debug)]
pub struct MIXWord(pub u32);

/// Mask selecting the 31-bit magnitude (everything but the sign bit).
pub const MASK: u32 = 0x7fff_ffff;

/// The sign bit of a packed word: 0 for positive, 1 for negative.
pub open spec fn w_sign(w: u32) -> int {
    w as int / 0x8000_0000
}

/// The 31-bit magnitude of a packed word.
pub open spec fn w_mag(w: u32) -> int {
    w as int % 0x8000_0000
}

/// Byte 1, the highest data byte (bits 24..30).
pub open spec fn w_b1(w: u32) -> int {
    (w as int / 0x100_0000) % 64
}

/// Byte 2 (bits 18..24).
pub open spec fn w_b2(w: u32) -> int {
    (w as int / 0x4_0000) % 64
}

/// Byte 3, the index field `I` of an instruction (bits 12..18).
pub open spec fn w_b3(w: u32) -> int {
    (w as int / 0x1000) % 64
}

/// Byte 4, the modification field `F` of an instruction (bits 6..12).
pub open spec fn w_b4(w: u32) -> int {
    (w as int / 64) % 64
}

/// Byte 5, the operation code `C` of an instruction (bits 0..6).
pub open spec fn w_b5(w: u32) -> int {
    w as int % 64
}

/// The twelve-bit address field `AA`, spanning bytes 1 and 2.
pub open spec fn w_aa(w: u32) -> int {
    (w as int / 0x4_0000) % 4096
}

/// The signed value of a word: the magnitude, negated when the sign bit is set.
pub open spec fn w_val(w: u32) -> int {
    if w_sign(w) == 1 {
        -w_mag(w)
    } else {
        w_mag(w)
    }
}

/// The signed address of an instruction word: `AA`, negated when the sign bit is set.
pub open spec fn w_m(w: u32) -> int {
    if w_sign(w) == 1 {
        -w_aa(w)
    } else {
        w_aa(w)
    }
}

/// A word assembled from a sign and five bytes, as an unbounded integer.
pub open spec fn pack_word(s: int, b1: int, b2: int, b3: int, b4: int, b5: int) -> int {
    s * 0x8000_0000 + b1 * 0x100_0000 + b2 * 0x4_0000 + b3 * 0x1000 + b4 * 64 + b5
}

/// The absolute value of an integer.
pub open spec fn int_abs(c: int) -> int {
    if c < 0 {
        -c
    } else {
        c
    }
}

/// Powers of 64 up to the fifth, the place values of the five bytes.
pub open spec fn pow64(k: int) -> int {
    if k <= 0 {
        1
    } else if k == 1 {
        64
    } else if k == 2 {
        0x1000
    } else if k == 3 {
        0x4_0000
    } else if k == 4 {
        0x100_0000
    } else {
        0x4000_0000
    }
}

/// Byte `j` of a word, for `j` in 1..=5.
pub open spec fn w_byte(w: u32, j: int) -> int {
    (w as int / pow64(5 - j)) % 64
}

/// The word selected by the field range `(l:r)`: the bytes `l..=r` of `w`
/// moved to the low end, with the sign of `w` kept when `l` is 0 and a
/// positive sign otherwise.
pub open spec fn range_slice(w: u32, l: int, r: int) -> int {
    let ll = if l < 1 {
        1
    } else {
        l
    };
    let mag = if r == 0 {
        0
    } else {
        (w as int / pow64(5 - r)) % pow64(r - ll + 1)
    };
    if l == 0 {
        w_sign(w) * 0x8000_0000 + mag
    } else {
        mag
    }
}

/// Law: the sign of a word is one bit and its magnitude 31 bits.
pub proof fn lemma_sign_mag_bounds(w: u32)
    by (bit_vector)
    ensures
        0 <= w_sign(w) <= 1,
        0 <= w_mag(w) < 0x8000_0000,
        w == w_sign(w) * 0x8000_0000 + w_mag(w),
{
}

/// Law: extracting the field `(0:5)` of a word whose magnitude fits in the
/// five data bytes yields the word itself, and extracting `(1:5)` yields its
/// magnitude under a positive sign.
pub proof fn lemma_range_extremes(w: u32)
    by (bit_vector)
    ensures
        w_mag(w) < 0x4000_0000 ==> range_slice(w, 0, 5) == w,
        range_slice(w, 1, 5) == w as int % 0x4000_0000,
        w_sign(range_slice(w, 1, 5) as u32) == 0,
        w_mag(w) < 0x4000_0000 ==> range_slice(w, 1, 5) == w_mag(w),
{
}

/// Law: a word built from a sign and five in-range bytes decomposes back into
/// exactly that sign and those bytes; its magnitude stays below `2^30`, and its
/// address field is the two high bytes combined.
pub proof fn lemma_word_round_trip(s: u32, b1: u32, b2: u32, b3: u32, b4: u32, b5: u32)
    by (bit_vector)
    requires
        s <= 1,
        b1 <= 63,
        b2 <= 63,
        b3 <= 63,
        b4 <= 63,
        b5 <= 63,
    ensures
        pack_word(s as int, b1 as int, b2 as int, b3 as int, b4 as int, b5 as int)
            < 0x1_0000_0000,
        w_sign(pack_word(s as int, b1 as int, b2 as int, b3 as int, b4 as int, b5 as int) as u32)
            == s as int,
        w_b1(pack_word(s as int, b1 as int, b2 as int, b3 as int, b4 as int, b5 as int) as u32)
            == b1 as int,
        w_b2(pack_word(s as int, b1 as int, b2 as int, b3 as int, b4 as int, b5 as int) as u32)
            == b2 as int,
        w_b3(pack_word(s as int, b1 as int, b2 as int, b3 as int, b4 as int, b5 as int) as u32)
            == b3 as int,
        w_b4(pack_word(s as int, b1 as int, b2 as int, b3 as int, b4 as int, b5 as int) as u32)
            == b4 as int,
        w_b5(pack_word(s as int, b1 as int, b2 as int, b3 as int, b4 as int, b5 as int) as u32)
            == b5 as int,
        w_aa(pack_word(s as int, b1 as int, b2 as int, b3 as int, b4 as int, b5 as int) as u32)
            == b1 as int * 64 + b2 as int,
        w_mag(pack_word(s as int, b1 as int, b2 as int, b3 as int, b4 as int, b5 as int) as u32)
            < 0x4000_0000,
{
}

/// The power of 64 with the given exponent, for exponents up to 5.
fn pow64_exec(k: u32) -> (r: u32)
    requires
        k <= 5,
    ensures
        r == pow64(k as int),
        1 <= r <= 0x4000_0000,
{
    if k == 0 {
        1
    } else if k == 1 {
        64
    } else if k == 2 {
        0x1000
    } else if k == 3 {
        0x4_0000
    } else if k == 4 {
        0x100_0000
    } else {
        0x4000_0000
    }
}

/// A word assembled from a sign and five bytes, each already in range.
pub(crate) fn compose_word(s: u32, b1: u32, b2: u32, b3: u32, b4: u32, b5: u32) -> (r: MIXWord)
    requires
        s <= 1,
        b1 <= 63,
        b2 <= 63,
        b3 <= 63,
        b4 <= 63,
        b5 <= 63,
    ensures
        r.0 == pack_word(s as int, b1 as int, b2 as int, b3 as int, b4 as int, b5 as int),
{
    MIXWord(s * 0x8000_0000 + b1 * 0x100_0000 + b2 * 0x4_0000 + b3 * 0x1000 + b4 * 64 + b5)
}

impl MIXWord {
    /// Read the operation code, byte 5.
    pub fn get_op(&self) -> (r: u32)
        ensures
            r == w_b5(self.0),
    {
        self.0 % 64
    }

    /// Replace the operation code, byte 5; the input is masked to six bits.
    pub fn set_op(&mut self, c: u32)
        ensures
            final(self).0 as int / 64 == old(self).0 as int / 64,
            w_b5(final(self).0) == c as int % 64,
    {
        let w: u32 = self.0;
        let q: u32 = w / 64;
        let v: u32 = c % 64;
        proof {
            assert(q == w / 64 && v == c % 64 ==> q * 64 + v <= 0xffff_ffffu32
                && ((q * 64 + v) as u32) as int / 64 == q && ((q * 64 + v) as u32) as int % 64
                == v) by (bit_vector);
        }
        self.0 = q * 64 + v;
    }

    /// Read the modification field `F`, byte 4.
    pub fn get_f(&self) -> (r: u32)
        ensures
            r == w_b4(self.0),
    {
        (self.0 / 64) % 64
    }

    /// Replace the modification field, byte 4; the input is masked to six bits.
    pub fn set_f(&mut self, c: u32)
        ensures
            final(self).0 as int / 0x1000 == old(self).0 as int / 0x1000,
            w_b4(final(self).0) == c as int % 64,
            w_b5(final(self).0) == w_b5(old(self).0),
    {
        let w: u32 = self.0;
        let q: u32 = w / 0x1000;
        let v: u32 = c % 64;
        let low: u32 = w % 64;
        proof {
            assert(q == w / 0x1000 && v == c % 64 && low == w % 64 ==> q * 0x1000 + v
                * 64 + low <= 0xffff_ffffu32 && ((q * 0x1000 + v * 64 + low) as u32) as int
                / 0x1000 == q && (((q * 0x1000 + v * 64 + low) as u32) as int / 64) % 64 == v
                && ((q * 0x1000 + v * 64 + low) as u32) as int % 64 == low) by (bit_vector);
        }
        self.0 = q * 0x1000 + v * 64 + low;
    }

    /// Read the index field `I`, byte 3.
    pub fn get_i(&self) -> (r: u32)
        ensures
            r == w_b3(self.0),
    {
        (self.0 / 0x1000) % 64
    }

    /// Replace the index field, byte 3; the input is masked to six bits.
    pub fn set_i(&mut self, c: u32)
        ensures
            final(self).0 as int / 0x4_0000 == old(self).0 as int / 0x4_0000,
            w_b3(final(self).0) == c as int % 64,
            final(self).0 as int % 0x1000 == old(self).0 as int % 0x1000,
    {
        let w: u32 = self.0;
        let q: u32 = w / 0x4_0000;
        let v: u32 = c % 64;
        let low: u32 = w % 0x1000;
        proof {
            assert(q == w / 0x4_0000 && v == c % 64 && low == w % 0x1000 ==> q
                * 0x4_0000 + v * 0x1000 + low <= 0xffff_ffffu32 && ((q * 0x4_0000 + v * 0x1000
                + low) as u32) as int / 0x4_0000 == q && (((q * 0x4_0000 + v * 0x1000
                + low) as u32) as int / 0x1000) % 64 == v && ((q * 0x4_0000 + v * 0x1000
                + low) as u32) as int % 0x1000 == low) by (bit_vector);
        }
        self.0 = q * 0x4_0000 + v * 0x1000 + low;
    }

    /// Read the sign bit: 0 for positive, 1 for negative.
    pub fn get_opposite(&self) -> (r: u32)
        ensures
            r == w_sign(self.0),
    {
        self.0 / 0x8000_0000
    }

    /// Replace the sign bit; the input is masked to one bit.
    pub fn set_opposite(&mut self, c: u32)
        ensures
            w_sign(final(self).0) == c as int % 2,
            w_mag(final(self).0) == w_mag(old(self).0),
    {
        let w: u32 = self.0;
        let v: u32 = c % 2;
        let low: u32 = w % 0x8000_0000;
        proof {
            assert(v == c % 2 && low == w % 0x8000_0000 ==> v * 0x8000_0000 + low
                <= 0xffff_ffffu32 && ((v * 0x8000_0000 + low) as u32) as int / 0x8000_0000 == v
                && ((v * 0x8000_0000 + low) as u32) as int % 0x8000_0000 == low) by (bit_vector);
        }
        self.0 = v * 0x8000_0000 + low;
    }

    /// Read the address field `AA`, bytes 1 and 2 combined.
    pub fn get_aa(&self) -> (r: u32)
        ensures
            r == w_aa(self.0),
    {
        (self.0 / 0x4_0000) % 4096
    }

    /// Replace the address field, bytes 1 and 2; the input is masked to twelve bits.
    pub fn set_aa(&mut self, c: u32)
        ensures
            final(self).0 as int / 0x4000_0000 == old(self).0 as int / 0x4000_0000,
            w_aa(final(self).0) == c as int % 4096,
            final(self).0 as int % 0x4_0000 == old(self).0 as int % 0x4_0000,
            w_sign(final(self).0) == w_sign(old(self).0),
    {
        let w: u32 = self.0;
        let q: u32 = w / 0x4000_0000;
        let v: u32 = c % 4096;
        let low: u32 = w % 0x4_0000;
        proof {
            assert(q == w / 0x4000_0000 && v == c % 4096 && low == w % 0x4_0000 ==> q
                * 0x4000_0000 + v * 0x4_0000 + low <= 0xffff_ffffu32 && ((q * 0x4000_0000 + v
                * 0x4_0000 + low) as u32) as int / 0x4000_0000 == q && (((q * 0x4000_0000 + v
                * 0x4_0000 + low) as u32) as int / 0x4_0000) % 4096 == v && ((q * 0x4000_0000 + v
                * 0x4_0000 + low) as u32) as int % 0x4_0000 == low && ((q * 0x4000_0000 + v
                * 0x4_0000 + low) as u32) as int / 0x8000_0000 == ((q * 0x4000_0000
                + low) as u32) as int / 0x8000_0000 && ((q * 0x4000_0000 + low) as u32) as int
                / 0x8000_0000 == q / 2) by (bit_vector);
            assert(q == w / 0x4000_0000 ==> q / 2 == w_sign(w)) by (bit_vector);
        }
        self.0 = q * 0x4000_0000 + v * 0x4_0000 + low;
    }

    /// The signed address: `AA` negated when the sign bit is set.
    pub fn get_m(&self) -> (r: i32)
        ensures
            r == w_m(self.0),
    {
        let aa = self.get_aa();
        if self.get_opposite() == 1 {
            -(aa as i32)
        } else {
            aa as i32
        }
    }

    /// Replace the 31-bit magnitude, keeping the sign; the input is masked to 31 bits.
    pub fn set_unsigned(&mut self, c: u32)
        ensures
            w_sign(final(self).0) == w_sign(old(self).0),
            w_mag(final(self).0) == c as int % 0x8000_0000,
    {
        let w: u32 = self.0;
        let s: u32 = w / 0x8000_0000;
        let v: u32 = c % 0x8000_0000;
        proof {
            assert(s == w / 0x8000_0000 && v == c % 0x8000_0000 ==> s * 0x8000_0000 + v
                <= 0xffff_ffffu32 && ((s * 0x8000_0000 + v) as u32) as int / 0x8000_0000 == s
                && ((s * 0x8000_0000 + v) as u32) as int % 0x8000_0000 == v) by (bit_vector);
        }
        self.0 = s * 0x8000_0000 + v;
    }

    /// Read the 31-bit magnitude, ignoring the sign.
    pub fn get_unsinged(&self) -> (r: u64)
        ensures
            r == w_mag(self.0),
    {
        (self.0 % 0x8000_0000) as u64
    }

    /// The signed value of the word.
    pub fn get_value(&self) -> (r: i64)
        ensures
            r == w_val(self.0),
            -0x8000_0000 < r < 0x8000_0000,
    {
        let mag = (self.0 % 0x8000_0000) as i64;
        if self.get_opposite() == 1 {
            -mag
        } else {
            mag
        }
    }

    /// The sub-word spanning bytes `l..=r` of this word, moved to the low
    /// end; the sign is kept when `l` is 0 and positive otherwise.
    pub fn get_range(&self, l: u32, r: u32) -> (out: MIXWord)
        requires
            l <= r,
            r <= 5,
        ensures
            out.0 == range_slice(self.0, l as int, r as int),
    {
        let ll: u32 = if l < 1 {
            1
        } else {
            l
        };
        let mag: u32 = if r == 0 {
            0
        } else {
            (self.0 / pow64_exec(5 - r)) % pow64_exec(r - ll + 1)
        };
        if l == 0 {
            let s: u32 = self.0 / 0x8000_0000;
            proof {
                lemma_sign_mag_bounds(self.0);
            }
            MIXWord(s * 0x8000_0000 + mag)
        } else {
            MIXWord(mag)
        }
    }

    /// Byte `j` of this word, for `j` in 1..=5.
    pub fn byte_of(&self, j: u32) -> (r: u32)
        requires
            1 <= j <= 5,
        ensures
            r == w_byte(self.0, j as int),
    {
        (self.0 / pow64_exec(5 - j)) % 64
    }

    /// The six-tuple `(sign, b1, b2, b3, b4, b5)` of the word.
    pub fn into_slice(self) -> (r: (u32, u32, u32, u32, u32, u32))
        ensures
            r.0 == w_sign(self.0),
            r.1 == w_b1(self.0),
            r.2 == w_b2(self.0),
            r.3 == w_b3(self.0),
            r.4 == w_b4(self.0),
            r.5 == w_b5(self.0),
    {
        (
            self.0 / 0x8000_0000,
            (self.0 / 0x100_0000) % 64,
            (self.0 / 0x4_0000) % 64,
            (self.0 / 0x1000) % 64,
            (self.0 / 64) % 64,
            self.0 % 64,
        )
    }

    /// Build a word from a signed value: the magnitude is the absolute value
    /// masked to 31 bits, the sign bit is set exactly when the value is negative.
    pub fn from_value(c: i64) -> (r: Self)
        ensures
            w_sign(r.0) == (if c < 0 { 1int } else { 0int }),
            w_mag(r.0) == int_abs(c as int) % 0x8000_0000,
    {
        let mag_full: u64 = if c >= 0 {
            c as u64
        } else {
            ((-(c + 1)) as u64) + 1
        };
        assert(mag_full == int_abs(c as int));
        let mag: u32 = (mag_full % 0x8000_0000) as u32;
        if c < 0 {
            proof {
                assert(mag < 0x8000_0000 ==> 0x8000_0000u32 + mag <= 0xffff_ffffu32
                    && ((0x8000_0000u32 + mag) as u32) as int / 0x8000_0000 == 1
                    && ((0x8000_0000u32 + mag) as u32) as int % 0x8000_0000 == mag) by (bit_vector);
            }
            MIXWord(0x8000_0000u32 + mag)
        } else {
            proof {
                assert(mag < 0x8000_0000 ==> mag as int / 0x8000_0000 == 0 && mag as int
                    % 0x8000_0000 == mag) by (bit_vector);
            }
            MIXWord(mag)
        }
    }
}

impl From<u32> for MIXWord {
    fn from(a: u32) -> (r: Self) {
        MIXWord(a)
    }
}

impl vstd::std_specs::convert::FromSpecImpl<u32> for MIXWord {
    open spec fn obeys_from_spec() -> bool {
        true
    }

    open spec fn from_spec(a: u32) -> Self {
        MIXWord(a)
    }
}

impl From<(u32, u32, u32, u32, u32, u32)> for MIXWord {
    fn from(a: (u32, u32, u32, u32, u32, u32)) -> (r: Self) {
        let s: u64 = a.0 as u64;
        let b1: u64 = a.1 as u64;
        let b2: u64 = a.2 as u64;
        let b3: u64 = a.3 as u64;
        let b4: u64 = a.4 as u64;
        let b5: u64 = a.5 as u64;
        let total: u64 = s * 0x8000_0000 + b1 * 0x100_0000 + b2 * 0x4_0000 + b3 * 0x1000 + b4
            * 64 + b5;
        MIXWord((total % 0x1_0000_0000) as u32)
    }
}

impl vstd::std_specs::convert::FromSpecImpl<(u32, u32, u32, u32, u32, u32)> for MIXWord {
    open spec fn obeys_from_spec() -> bool {
        true
    }

    open spec fn from_spec(a: (u32, u32, u32, u32, u32, u32)) -> Self {
        MIXWord(
            (pack_word(
                a.0 as int,
                a.1 as int,
                a.2 as int,
                a.3 as int,
                a.4 as int,
                a.5 as int,
            ) % 0x1_0000_0000) as u32,
        )
    }
}

} // verus!

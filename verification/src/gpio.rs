//! Register-level model of the BCM283x GPIO controller.
//!
//! The controller packs 54 pins into a small register file: six 32-bit
//! function-select registers holding one 3-bit mode code per pin (ten pins
//! per register), and two 32-bit words of per-pin level state. The hardware
//! drives the level word through separate write-only set and clear
//! registers (writing a 1 bit acts on that pin, a 0 bit is a no-op), and
//! reports it through read-only level registers; this model keeps the level
//! word itself and gives the set and clear writes their architected effect
//! on it.
//!
//! Every operation's contract pins down both the bit field it changes and
//! the fact that every other pin's state is untouched.

use vstd::prelude::*;

verus! {

/// Number of pins the register layout covers; valid pin numbers are below it.
pub const NUM_PINS: u32 = 54;

/// Operating mode of one pin. Each variant stands for a distinct 3-bit
/// function-select code; the codes are fixed by the hardware and are not
/// consecutive, so they live in [`GpioFunction::code`] rather than in the
/// variant order.
#[derive(Clone, Copy)]
pub enum GpioFunction {
    Input,
    Output,
    Alt0,
    Alt1,
    Alt2,
    Alt3,
    Alt4,
    Alt5,
}

impl GpioFunction {
    /// The 3-bit code the hardware assigns to this function.
    pub open spec fn spec_code(self) -> u32 {
        match self {
            GpioFunction::Input => 0b000,
            GpioFunction::Output => 0b001,
            GpioFunction::Alt0 => 0b100,
            GpioFunction::Alt1 => 0b101,
            GpioFunction::Alt2 => 0b110,
            GpioFunction::Alt3 => 0b111,
            GpioFunction::Alt4 => 0b010,
            GpioFunction::Alt5 => 0b011,
        }
    }

    /// Encodes this function as its 3-bit register code.
    #[verifier::when_used_as_spec(spec_code)]
    pub fn code(self) -> (c: u32)
        ensures
            c == self.spec_code(),
            c < 8,
    {
        match self {
            GpioFunction::Input => 0b000,
            GpioFunction::Output => 0b001,
            GpioFunction::Alt0 => 0b100,
            GpioFunction::Alt1 => 0b101,
            GpioFunction::Alt2 => 0b110,
            GpioFunction::Alt3 => 0b111,
            GpioFunction::Alt4 => 0b010,
            GpioFunction::Alt5 => 0b011,
        }
    }
}

/// Which function-select register holds `pin`'s mode code.
pub open spec fn fsel_index(pin: u32) -> int {
    pin as int / 10
}

/// Bit position of `pin`'s 3-bit mode code within its register.
pub open spec fn fsel_shift(pin: u32) -> u32 {
    ((pin % 10) * 3) as u32
}

/// The mode code programmed for `pin` in the register file `regs`.
pub open spec fn pin_function_of(regs: Seq<u32>, pin: u32) -> u32 {
    (regs[fsel_index(pin)] >> fsel_shift(pin)) & 7
}

/// The register file after a read-modify-write that programs `code` as
/// `pin`'s mode: the 3-bit field at `pin`'s position is cleared and `code`
/// is or-ed in.
pub open spec fn fsel_update(regs: Seq<u32>, pin: u32, code: u32) -> Seq<u32> {
    regs.update(
        fsel_index(pin),
        (regs[fsel_index(pin)] & !(7u32 << fsel_shift(pin))) | (code << fsel_shift(pin)),
    )
}

/// Which level word holds `pin`'s level bit.
pub open spec fn lev_index(pin: u32) -> int {
    pin as int / 32
}

/// Bit position of `pin` within its level word.
pub open spec fn lev_bit(pin: u32) -> u32 {
    (pin % 32) as u32
}

/// The level (0 or 1) of `pin` in the level words `levs`.
pub open spec fn pin_level_of(levs: Seq<u32>, pin: u32) -> u32 {
    (levs[lev_index(pin)] >> lev_bit(pin)) & 1
}

/// The level words after a write of `pin`'s single bit to the set register.
pub open spec fn lev_set(levs: Seq<u32>, pin: u32) -> Seq<u32> {
    levs.update(lev_index(pin), levs[lev_index(pin)] | (1u32 << lev_bit(pin)))
}

/// The level words after a write of `pin`'s single bit to the clear register.
pub open spec fn lev_clear(levs: Seq<u32>, pin: u32) -> Seq<u32> {
    levs.update(lev_index(pin), levs[lev_index(pin)] & !(1u32 << lev_bit(pin)))
}

proof fn lemma_fsel_set_field(x: u32, c: u32, sh: u32)
    by (bit_vector)
    requires
        c < 8,
        sh <= 27,
    ensures
        (((x & !(7u32 << sh)) | (c << sh)) >> sh) & 7 == c,
{
}

proof fn lemma_fsel_other_field(x: u32, c: u32, sh: u32, sh2: u32)
    by (bit_vector)
    requires
        c < 8,
        sh <= 27,
        sh2 <= 27,
        sh % 3 == 0,
        sh2 % 3 == 0,
        sh != sh2,
    ensures
        ((((x & !(7u32 << sh)) | (c << sh)) >> sh2) & 7) == ((x >> sh2) & 7),
{
}

proof fn lemma_lev_write_read(x: u32, b: u32)
    by (bit_vector)
    requires
        b < 32,
    ensures
        ((x | (1u32 << b)) >> b) & 1 == 1,
        ((x & !(1u32 << b)) >> b) & 1 == 0,
{
}

proof fn lemma_lev_write_other(x: u32, b: u32, b2: u32)
    by (bit_vector)
    requires
        b < 32,
        b2 < 32,
        b != b2,
    ensures
        ((x | (1u32 << b)) >> b2) & 1 == (x >> b2) & 1,
        ((x & !(1u32 << b)) >> b2) & 1 == (x >> b2) & 1,
{
}

proof fn lemma_masked_bit_read(x: u32, b: u32)
    by (bit_vector)
    requires
        b < 32,
    ensures
        (x & (1u32 << b)) >> b == (x >> b) & 1,
        (x >> b) & 1 <= 1,
{
}

proof fn lemma_shifted_field_bound(x: u32, sh: u32)
    by (bit_vector)
    ensures
        (x >> sh) & 7 < 8,
        (0u32 >> sh) & 7 == 0,
        (0u32 >> sh) & 1 == 0,
{
}

/// Read-modify-write correctness of function selection: programming `code`
/// for `pin` makes exactly `pin`'s field read back as `code`, and the field
/// of every other pin — in the same register or not — reads back unchanged.
pub proof fn lemma_set_function_isolated(regs: Seq<u32>, pin: u32, code: u32)
    requires
        regs.len() == 6,
        pin < NUM_PINS,
        code < 8,
    ensures
        pin_function_of(fsel_update(regs, pin, code), pin) == code,
        forall|q: u32|
            q < NUM_PINS && q != pin ==> pin_function_of(fsel_update(regs, pin, code), q)
                == pin_function_of(regs, q),
{
    let upd = fsel_update(regs, pin, code);
    let x = regs[fsel_index(pin)];
    let sh = fsel_shift(pin);
    assert(0 <= fsel_index(pin) < 6);
    assert(sh <= 27 && sh % 3 == 0);
    lemma_fsel_set_field(x, code, sh);
    assert forall|q: u32| q < NUM_PINS && q != pin implies pin_function_of(upd, q)
        == pin_function_of(regs, q) by {
        assert(0 <= fsel_index(q) < 6);
        if fsel_index(q) == fsel_index(pin) {
            assert(pin as int % 10 != q as int % 10);
            assert(fsel_shift(q) != sh && fsel_shift(q) <= 27 && fsel_shift(q) % 3 == 0);
            lemma_fsel_other_field(x, code, sh, fsel_shift(q));
        } else {
            assert(upd[fsel_index(q)] == regs[fsel_index(q)]);
        }
    }
}

/// Register-bit isolation of the level word: a set (clear) write of `pin`'s
/// bit makes exactly `pin`'s level read back as 1 (0) while every other
/// pin's level reads back unchanged.
pub proof fn lemma_set_value_isolated(levs: Seq<u32>, pin: u32)
    requires
        levs.len() == 2,
        pin < NUM_PINS,
    ensures
        pin_level_of(lev_set(levs, pin), pin) == 1,
        pin_level_of(lev_clear(levs, pin), pin) == 0,
        forall|q: u32|
            q < NUM_PINS && q != pin ==> pin_level_of(lev_set(levs, pin), q) == pin_level_of(
                levs,
                q,
            ),
        forall|q: u32|
            q < NUM_PINS && q != pin ==> pin_level_of(lev_clear(levs, pin), q) == pin_level_of(
                levs,
                q,
            ),
{
    let x = levs[lev_index(pin)];
    let b = lev_bit(pin);
    assert(0 <= lev_index(pin) < 2);
    assert(b < 32);
    lemma_lev_write_read(x, b);
    assert forall|q: u32| q < NUM_PINS && q != pin implies pin_level_of(lev_set(levs, pin), q)
        == pin_level_of(levs, q) && pin_level_of(lev_clear(levs, pin), q) == pin_level_of(
        levs,
        q,
    ) by {
        assert(0 <= lev_index(q) < 2);
        if lev_index(q) == lev_index(pin) {
            assert(pin as int % 32 != q as int % 32);
            assert(lev_bit(q) != b && lev_bit(q) < 32);
            lemma_lev_write_other(x, b, lev_bit(q));
        }
    }
}

/// Model of one mapped GPIO register block. The fields mirror the hardware
/// state the operations touch: the six function-select registers and the
/// two words of pin levels (the target of the write-only set and clear
/// registers, and the source of the read-only level registers).
pub struct RpiGpio {
    gpfsel: [u32; 6],
    gplev: [u32; 2],
}

impl RpiGpio {
    /// The function-select register file.
    pub closed spec fn fsel(self) -> Seq<u32> {
        self.gpfsel@
    }

    /// The pin level words.
    pub closed spec fn levels(self) -> Seq<u32> {
        self.gplev@
    }

    /// Creates a controller model with every register in its reset state:
    /// all pins are inputs (code 0) and all levels are low.
    pub fn new() -> (g: RpiGpio)
        ensures
            g.fsel().len() == 6,
            g.levels().len() == 2,
            forall|p: u32| p < NUM_PINS ==> pin_function_of(g.fsel(), p) == 0,
            forall|p: u32| p < NUM_PINS ==> pin_level_of(g.levels(), p) == 0,
    {
        let g = RpiGpio {
            gpfsel: [0u32, 0u32, 0u32, 0u32, 0u32, 0u32],
            gplev: [0u32, 0u32],
        };
        proof {
            assert forall|p: u32| p < NUM_PINS implies pin_function_of(g.fsel(), p) == 0
                && pin_level_of(g.levels(), p) == 0 by {
                assert(g.gpfsel@[fsel_index(p)] == 0);
                assert(g.gplev@[lev_index(p)] == 0);
                lemma_shifted_field_bound(0u32, fsel_shift(p));
                lemma_shifted_field_bound(0u32, lev_bit(p));
            }
        }
        g
    }

    /// Programs `function` as `offset`'s mode with a read-modify-write of
    /// its function-select register, leaving the 3-bit fields of the nine
    /// pins sharing that register — and all other registers — unchanged.
    pub fn set_function(&mut self, offset: u32, function: GpioFunction)
        requires
            offset < NUM_PINS,
        ensures
            final(self).fsel() == fsel_update(old(self).fsel(), offset, function.spec_code()),
            final(self).levels() == old(self).levels(),
            pin_function_of(final(self).fsel(), offset) == function.spec_code(),
            forall|q: u32|
                q < NUM_PINS && q != offset ==> pin_function_of(final(self).fsel(), q)
                    == pin_function_of(old(self).fsel(), q),
    {
        let reg_index = (offset / 10) as usize;
        let shift = (offset % 10) * 3;
        let mut fsel_value = self.gpfsel[reg_index];
        fsel_value = fsel_value & !(0b111u32 << shift);
        fsel_value = fsel_value | (function.code() << shift);
        self.gpfsel[reg_index] = fsel_value;
        proof {
            lemma_set_function_isolated(old(self).fsel(), offset, function.spec_code());
        }
    }

    /// Reads back the 3-bit mode code currently programmed for `offset`.
    pub fn get_function(&self, offset: u32) -> (c: u32)
        requires
            offset < NUM_PINS,
        ensures
            c == pin_function_of(self.fsel(), offset),
            c < 8,
    {
        let reg_index = (offset / 10) as usize;
        let shift = (offset % 10) * 3;
        let fsel_value = self.gpfsel[reg_index];
        proof {
            lemma_shifted_field_bound(fsel_value, fsel_shift(offset));
        }
        (fsel_value >> shift) & 0b111
    }

    /// Drives `offset` high (for `value == 1`) or low (any other value) by
    /// writing the pin's single bit to the set or the clear register; the
    /// levels of all other pins are untouched. The two registers are
    /// write-only and write-1-to-act, so no read-modify-write happens here.
    pub fn set_value(&mut self, offset: u32, value: u32)
        requires
            offset < NUM_PINS,
        ensures
            final(self).fsel() == old(self).fsel(),
            final(self).levels() == (if value == 1 {
                lev_set(old(self).levels(), offset)
            } else {
                lev_clear(old(self).levels(), offset)
            }),
            pin_level_of(final(self).levels(), offset) == (if value == 1 {
                1u32
            } else {
                0u32
            }),
            forall|q: u32|
                q < NUM_PINS && q != offset ==> pin_level_of(final(self).levels(), q)
                    == pin_level_of(old(self).levels(), q),
    {
        if value == 1 {
            self.gpset_write((offset / 32) as usize, 1u32 << (offset % 32));
        } else {
            self.gpclr_write((offset / 32) as usize, 1u32 << (offset % 32));
        }
        proof {
            lemma_set_value_isolated(old(self).levels(), offset);
        }
    }

    /// Reads the level register word holding `offset` and isolates the
    /// pin's bit; the result is 0 or 1.
    pub fn read_value(&self, offset: u32) -> (v: u32)
        requires
            offset < NUM_PINS,
        ensures
            v == pin_level_of(self.levels(), offset),
            v <= 1,
    {
        let level_reg_index = (offset / 32) as usize;
        let level_bit = 1u32 << (offset % 32);
        let level_reg_value = self.gplev[level_reg_index];
        proof {
            lemma_masked_bit_read(level_reg_value, lev_bit(offset));
        }
        (level_reg_value & level_bit) >> (offset % 32)
    }

    /// Configures the LED exercise's pins (2, 3, 4 and 17) as outputs. This
    /// is driver policy, not a hardware requirement: every other pin's
    /// function and every level are left as they were.
    pub fn gpio_init(&mut self)
        ensures
            final(self).fsel().len() == old(self).fsel().len(),
            final(self).levels() == old(self).levels(),
            pin_function_of(final(self).fsel(), 2) == GpioFunction::Output.spec_code(),
            pin_function_of(final(self).fsel(), 3) == GpioFunction::Output.spec_code(),
            pin_function_of(final(self).fsel(), 4) == GpioFunction::Output.spec_code(),
            pin_function_of(final(self).fsel(), 17) == GpioFunction::Output.spec_code(),
            forall|q: u32|
                q < NUM_PINS && q != 2 && q != 3 && q != 4 && q != 17 ==> pin_function_of(
                    final(self).fsel(),
                    q,
                ) == pin_function_of(old(self).fsel(), q),
    {
        self.set_function(2, GpioFunction::Output);
        self.set_function(3, GpioFunction::Output);
        self.set_function(4, GpioFunction::Output);
        self.set_function(17, GpioFunction::Output);
    }

    /// Models a write of `mask` to the write-only set register `index`:
    /// the hardware raises every level bit that is 1 in `mask`.
    fn gpset_write(&mut self, index: usize, mask: u32)
        requires
            index < 2,
        ensures
            final(self).fsel() == old(self).fsel(),
            final(self).levels() == old(self).levels().update(
                index as int,
                old(self).levels()[index as int] | mask,
            ),
    {
        self.gplev[index] = self.gplev[index] | mask;
    }

    /// Models a write of `mask` to the write-only clear register `index`:
    /// the hardware drops every level bit that is 1 in `mask`.
    fn gpclr_write(&mut self, index: usize, mask: u32)
        requires
            index < 2,
        ensures
            final(self).fsel() == old(self).fsel(),
            final(self).levels() == old(self).levels().update(
                index as int,
                old(self).levels()[index as int] & !mask,
            ),
    {
        self.gplev[index] = self.gplev[index] & !mask;
    }
}

} // verus!

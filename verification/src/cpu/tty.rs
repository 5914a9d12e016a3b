//! High-level emulation of the BIOS TTY calls (putchar, puts, printf) that the CPU
//! intercepts at the A0/B0/C0 vectors.
use super::semantics::{sint, wrap_add};
use super::Cpu;
use crate::bus::Bus;
use vstd::prelude::*;

verus! {

/// How many characters `puts` and `%s` print at most.
pub const STRING_LIMIT: usize = 1024;

/// How many format characters or directives `printf` processes at most.
pub const FORMAT_LIMIT: usize = 2048;

/// Decimal digits of `v`, most significant first, without leading zeros.
pub open spec fn dec_digits(v: nat) -> Seq<u8>
    decreases v,
{
    if v < 10 {
        seq![(0x30 + v) as u8]
    } else {
        dec_digits(v / 10).push((0x30 + v % 10) as u8)
    }
}

/// A hexadecimal digit, lower or upper case.
pub open spec fn hex_digit(d: nat, upper: bool) -> u8 {
    if d < 10 {
        (0x30 + d) as u8
    } else if upper {
        (0x41 + d - 10) as u8
    } else {
        (0x61 + d - 10) as u8
    }
}

/// Hexadecimal digits of `v`, most significant first, without leading zeros.
pub open spec fn hex_digits(v: nat, upper: bool) -> Seq<u8>
    decreases v,
{
    if v < 16 {
        seq![hex_digit(v, upper)]
    } else {
        hex_digits(v / 16, upper).push(hex_digit(v % 16, upper))
    }
}

/// The decimal text of a word read as a signed integer.
pub open spec fn signed_dec(v: u32) -> Seq<u8> {
    if v >= 0x8000_0000 {
        seq![0x2Du8] + dec_digits((0x1_0000_0000 - v) as nat)
    } else {
        dec_digits(v as nat)
    }
}

/// `s` right-aligned in a field of `width` characters, padded with zeros or spaces.
pub open spec fn padded(s: Seq<u8>, width: nat, zero: bool) -> Seq<u8> {
    let pad = if width > s.len() {
        (width - s.len()) as nat
    } else {
        0
    };
    Seq::new(pad, |i: int| if zero { 0x30u8 } else { 0x20u8 }) + s
}

/// Whether a byte is an ASCII digit.
pub open spec fn is_digit(b: u8) -> bool {
    0x30 <= b <= 0x39
}

/// The bus after the characters of `s` are sent to the TTY in order.
pub open spec fn logged_all<B: Bus>(m: B::V, s: Seq<u8>) -> B::V
    decreases s.len(),
{
    if s.len() == 0 {
        m
    } else {
        B::tty_logged(logged_all::<B>(m, s.drop_last()), s.last())
    }
}

/// The bus after a NUL-terminated string at `ptr` is printed, at most `fuel` characters.
pub open spec fn printed_string<B: Bus>(m: B::V, ptr: u32, fuel: nat) -> B::V
    decreases fuel,
{
    if fuel == 0 {
        m
    } else {
        let (b, m1) = B::read8_result(m, ptr);
        if b == 0 {
            m1
        } else {
            printed_string::<B>(B::tty_logged(m1, b), wrap_add(ptr, 1), (fuel - 1) as nat)
        }
    }
}

/// Reading a field width: while `nb` is a digit it is added to `width` and the next byte
/// is read. `None` when more than `fuel` digits follow or the width overflows a `usize`.
pub open spec fn scan_digits<B: Bus>(m: B::V, ptr: u32, nb: u8, width: int, fuel: nat) -> Option<
    (B::V, u32, u8, int),
>
    decreases fuel,
{
    if !is_digit(nb) {
        Some((m, ptr, nb, width))
    } else if fuel == 0 {
        None
    } else {
        let w = width * 10 + (nb - 0x30);
        if w > usize::MAX {
            None
        } else {
            let (b, m1) = B::read8_result(m, ptr);
            scan_digits::<B>(m1, wrap_add(ptr, 1), b, w, (fuel - 1) as nat)
        }
    }
}

/// Whether the field width ends within finitely many digits without overflowing.
pub open spec fn scan_ends<B: Bus>(m: B::V, ptr: u32, nb: u8, width: int) -> bool {
    exists|f: nat| (#[trigger] scan_digits::<B>(m, ptr, nb, width, f)) is Some
}

/// The field width read, with the bus, the pointer and the byte after the digits.
pub open spec fn scanned<B: Bus>(m: B::V, ptr: u32, nb: u8, width: int) -> (B::V, u32, u8, int) {
    scan_digits::<B>(
        m,
        ptr,
        nb,
        width,
        choose|f: nat| (#[trigger] scan_digits::<B>(m, ptr, nb, width, f)) is Some,
    )->Some_0
}

/// More fuel does not change a width scan that already ended.
pub proof fn lemma_scan_fuel<B: Bus>(m: B::V, ptr: u32, nb: u8, width: int, f1: nat, f2: nat)
    requires
        scan_digits::<B>(m, ptr, nb, width, f1) is Some,
        f1 <= f2,
    ensures
        scan_digits::<B>(m, ptr, nb, width, f2) == scan_digits::<B>(m, ptr, nb, width, f1),
    decreases f1,
{
    if is_digit(nb) && f1 > 0 {
        let w = width * 10 + (nb - 0x30);
        let (b, m1) = B::read8_result(m, ptr);
        lemma_scan_fuel::<B>(m1, wrap_add(ptr, 1), b, w, (f1 - 1) as nat, (f2 - 1) as nat);
    }
}

impl Cpu {
    /// Argument `idx` of a printf call: `$a1..$a3`, then words on the stack.
    pub open spec fn printf_arg<B: Bus>(self, m: B::V, idx: nat) -> (u32, B::V) {
        if idx == 1 {
            (self.gpr[5], m)
        } else if idx == 2 {
            (self.gpr[6], m)
        } else if idx == 3 {
            (self.gpr[7], m)
        } else {
            B::read32_result(m, wrap_add(self.gpr[29], (idx * 4) as u32))
        }
    }

    /// Whether reading argument `idx` stays inside memory.
    pub open spec fn printf_arg_ok<B: Bus>(self, m: B::V, idx: nat) -> bool {
        (1 <= idx <= 3) || B::can_read32(m, wrap_add(self.gpr[29], (idx * 4) as u32))
    }

    /// One printf directive with conversion character `conv`: the bus after its output and
    /// the index of the next argument; `None` when an argument read leaves memory.
    pub open spec fn printf_directive<B: Bus>(
        self,
        m: B::V,
        conv: u8,
        width: nat,
        zero: bool,
        idx: nat,
    ) -> Option<(B::V, nat)> {
        if conv == 0x25 {
            Some((B::tty_logged(m, 0x25), idx))
        } else if conv == 0x73 || conv == 0x64 || conv == 0x69 || conv == 0x75 || conv == 0x78
            || conv == 0x58 || conv == 0x63 {
            if !self.printf_arg_ok::<B>(m, idx) {
                None
            } else {
                let (v, m1) = self.printf_arg::<B>(m, idx);
                let out = if conv == 0x73 {
                    printed_string::<B>(m1, v, STRING_LIMIT as nat)
                } else if conv == 0x64 || conv == 0x69 {
                    logged_all::<B>(m1, padded(signed_dec(v), width, zero))
                } else if conv == 0x75 {
                    logged_all::<B>(m1, padded(dec_digits(v as nat), width, zero))
                } else if conv == 0x78 {
                    logged_all::<B>(m1, padded(hex_digits(v as nat, false), width, zero))
                } else if conv == 0x58 {
                    logged_all::<B>(m1, padded(hex_digits(v as nat, true), width, zero))
                } else {
                    B::tty_logged(m1, v as u8)
                };
                Some((out, idx + 1))
            }
        } else {
            let m1 = B::tty_logged(m, 0x25);
            Some((
                if conv != 0 {
                    B::tty_logged(m1, conv)
                } else {
                    m1
                },
                idx,
            ))
        }
    }

    /// printf from `ptr` onward with at most `fuel` more characters or directives: the bus
    /// after its output, or `None` when a field width never ends or overflows, or an argument
    /// read leaves memory.
    pub open spec fn printf_from<B: Bus>(self, m: B::V, ptr: u32, idx: nat, fuel: nat) -> Option<B::V>
        decreases fuel,
    {
        if fuel == 0 {
            Some(m)
        } else {
            let (b, m1) = B::read8_result(m, ptr);
            let p1 = wrap_add(ptr, 1);
            if b == 0 {
                Some(m1)
            } else if b != 0x25 {
                self.printf_from::<B>(B::tty_logged(m1, b), p1, idx, (fuel - 1) as nat)
            } else {
                let (nb, m2) = B::read8_result(m1, p1);
                let p2 = wrap_add(p1, 1);
                let zero = nb == 0x30;
                let (nb3, m3, p3) = if zero {
                    let (x, m3) = B::read8_result(m2, p2);
                    (x, m3, wrap_add(p2, 1))
                } else {
                    (nb, m2, p2)
                };
                if !scan_ends::<B>(m3, p3, nb3, 0) {
                    None
                } else {
                    let (m4, p4, conv, width) = scanned::<B>(m3, p3, nb3, 0);
                    match self.printf_directive::<B>(m4, conv, width as nat, zero, idx) {
                        None => None,
                        Some((m5, idx2)) => self.printf_from::<B>(m5, p4, idx2, (fuel - 1) as nat),
                    }
                }
            }
        }
    }

    /// The BIOS function number of a call: `$v0` or `$t1`, whichever names a TTY function,
    /// else `$v0` when nonzero, else `$t1`.
    pub open spec fn bios_function(self) -> u32 {
        if is_tty_function(self.gpr[2]) {
            self.gpr[2]
        } else if is_tty_function(self.gpr[9]) {
            self.gpr[9]
        } else if self.gpr[2] != 0 {
            self.gpr[2]
        } else {
            self.gpr[9]
        }
    }

    /// The bus after the TTY output of a BIOS call; `None` when printf is undefined on it.
    pub open spec fn bios_call_output<B: Bus>(self, m: B::V) -> Option<B::V> {
        let f = self.bios_function();
        if f == 0x3C || f == 0x3D {
            Some(B::tty_logged(m, self.gpr[4] as u8))
        } else if f == 0x3E {
            Some(printed_string::<B>(m, self.gpr[4], STRING_LIMIT as nat))
        } else if f == 0x3F {
            self.printf_from::<B>(m, self.gpr[4], 1, FORMAT_LIMIT as nat)
        } else {
            Some(m)
        }
    }
}

/// The function numbers that the BIOS vectors are checked for.
pub open spec fn is_tty_function(x: u32) -> bool {
    x == 0x3C || x == 0x3D || x == 0x3E || x == 0x3F || x == 0x17 || x == 0x4B
}

fn tty_function(x: u32) -> (r: bool)
    ensures
        r == is_tty_function(x),
{
    x == 0x3C || x == 0x3D || x == 0x3E || x == 0x3F || x == 0x17 || x == 0x4B
}

/// Appends the decimal digits of `v`.
fn push_decimal(v: u32, out: &mut Vec<u8>)
    ensures
        final(out)@ == old(out)@ + dec_digits(v as nat),
    decreases v,
{
    if v >= 10 {
        push_decimal(v / 10, out);
    }
    out.push(0x30u8 + (v % 10) as u8);
    assert(final(out)@ =~= old(out)@ + dec_digits(v as nat));
}

/// Appends the hexadecimal digits of `v`.
fn push_hex(v: u32, upper: bool, out: &mut Vec<u8>)
    ensures
        final(out)@ == old(out)@ + hex_digits(v as nat, upper),
    decreases v,
{
    if v >= 16 {
        push_hex(v / 16, upper, out);
    }
    let d = (v % 16) as u8;
    let c = if d < 10 {
        0x30u8 + d
    } else if upper {
        0x41u8 + d - 10
    } else {
        0x61u8 + d - 10
    };
    out.push(c);
    assert(final(out)@ =~= old(out)@ + hex_digits(v as nat, upper));
}

/// Sends every byte of `s` to the TTY.
fn log_all<B: Bus>(bus: &mut B, s: &Vec<u8>)
    requires
        B::inv(old(bus)@),
    ensures
        B::inv(final(bus)@),
        final(bus)@ == logged_all::<B>(old(bus)@, s@),
{
    let mut i: usize = 0;
    while i < s.len()
        invariant
            0 <= i <= s@.len(),
            B::inv(bus@),
            bus@ == logged_all::<B>(old(bus)@, s@.subrange(0, i as int)),
        decreases s@.len() - i,
    {
        bus.log_tty_char(s[i]);
        assert(s@.subrange(0, i + 1).drop_last() =~= s@.subrange(0, i as int));
        i = i + 1;
    }
    assert(s@.subrange(0, s@.len() as int) =~= s@);
}

/// Prints the NUL-terminated string at `ptr`, at most `STRING_LIMIT` characters.
fn print_string<B: Bus>(bus: &mut B, ptr: u32)
    requires
        B::inv(old(bus)@),
    ensures
        B::inv(final(bus)@),
        final(bus)@ == printed_string::<B>(old(bus)@, ptr, STRING_LIMIT as nat),
{
    let mut p = ptr;
    let mut n: usize = 0;
    while n < STRING_LIMIT
        invariant
            0 <= n <= STRING_LIMIT,
            B::inv(bus@),
            printed_string::<B>(bus@, p, (STRING_LIMIT - n) as nat) == printed_string::<B>(
                old(bus)@,
                ptr,
                STRING_LIMIT as nat,
            ),
        decreases STRING_LIMIT - n,
    {
        let b = bus.read8(p);
        if b == 0 {
            return;
        }
        bus.log_tty_char(b);
        p = p.wrapping_add(1);
        n = n + 1;
    }
}

/// The text of a numeric directive, right-aligned in its field.
fn padded_number(digits: Vec<u8>, width: usize, zero: bool) -> (r: Vec<u8>)
    ensures
        r@ == padded(digits@, width as nat, zero),
{
    let pad = if width > digits.len() {
        width - digits.len()
    } else {
        0
    };
    let pad_char = if zero {
        0x30u8
    } else {
        0x20u8
    };
    let mut out: Vec<u8> = Vec::new();
    let mut i: usize = 0;
    while i < pad
        invariant
            0 <= i <= pad,
            out@ =~= Seq::new(i as nat, |j: int| pad_char),
        decreases pad - i,
    {
        out.push(pad_char);
        i = i + 1;
    }
    let mut k: usize = 0;
    while k < digits.len()
        invariant
            0 <= k <= digits@.len(),
            out@ =~= Seq::new(pad as nat, |j: int| pad_char) + digits@.subrange(0, k as int),
        decreases digits@.len() - k,
    {
        out.push(digits[k]);
        k = k + 1;
    }
    assert(digits@.subrange(0, digits@.len() as int) =~= digits@);
    out
}

impl Cpu {
    /// Argument `idx` of a printf call.
    fn get_printf_arg<B: Bus>(&self, bus: &mut B, idx: usize) -> (r: u32)
        requires
            B::inv(old(bus)@),
            self.printf_arg_ok::<B>(old(bus)@, idx as nat),
            idx <= FORMAT_LIMIT + 1,
        ensures
            B::inv(final(bus)@),
            (r, final(bus)@) == self.printf_arg::<B>(old(bus)@, idx as nat),
    {
        match idx {
            1 => self.gpr[5],
            2 => self.gpr[6],
            3 => self.gpr[7],
            _ => {
                let off = (idx as u32) * 4;
                assert(off == (idx as nat * 4) as u32);
                bus.read32(self.gpr[29].wrapping_add(off))
            },
        }
    }

    /// Outputs one printf directive and returns the index of the next argument.
    fn printf_directive_exec<B: Bus>(
        &self,
        bus: &mut B,
        conv: u8,
        width: usize,
        zero: bool,
        idx: usize,
    ) -> (r: usize)
        requires
            B::inv(old(bus)@),
            self.printf_directive::<B>(old(bus)@, conv, width as nat, zero, idx as nat) is Some,
            idx <= FORMAT_LIMIT,
        ensures
            B::inv(final(bus)@),
            Some((final(bus)@, r as nat)) == self.printf_directive::<B>(
                old(bus)@,
                conv,
                width as nat,
                zero,
                idx as nat,
            ),
    {
        if conv == 0x25 {
            bus.log_tty_char(0x25);
            idx
        } else if conv == 0x73 {
            let p = self.get_printf_arg(bus, idx);
            print_string(bus, p);
            idx + 1
        } else if conv == 0x64 || conv == 0x69 {
            let v = self.get_printf_arg(bus, idx);
            let mut digits: Vec<u8> = Vec::new();
            if v >= 0x8000_0000 {
                digits.push(0x2D);
                push_decimal(0u32.wrapping_sub(v), &mut digits);
            } else {
                push_decimal(v, &mut digits);
            }
            assert(digits@ =~= signed_dec(v));
            let text = padded_number(digits, width, zero);
            log_all(bus, &text);
            idx + 1
        } else if conv == 0x75 {
            let v = self.get_printf_arg(bus, idx);
            let mut digits: Vec<u8> = Vec::new();
            push_decimal(v, &mut digits);
            assert(digits@ =~= dec_digits(v as nat));
            let text = padded_number(digits, width, zero);
            log_all(bus, &text);
            idx + 1
        } else if conv == 0x78 || conv == 0x58 {
            let v = self.get_printf_arg(bus, idx);
            let mut digits: Vec<u8> = Vec::new();
            push_hex(v, conv == 0x58, &mut digits);
            assert(digits@ =~= hex_digits(v as nat, conv == 0x58));
            let text = padded_number(digits, width, zero);
            log_all(bus, &text);
            idx + 1
        } else if conv == 0x63 {
            let v = self.get_printf_arg(bus, idx);
            bus.log_tty_char(v as u8);
            idx + 1
        } else {
            bus.log_tty_char(0x25);
            if conv != 0 {
                bus.log_tty_char(conv);
            }
            idx
        }
    }

    /// Reads the digits of a field width following `first`; returns the width, the byte after
    /// the digits and the pointer past it.
    fn scan_width<B: Bus>(bus: &mut B, ptr: u32, first: u8) -> (r: (usize, u8, u32))
        requires
            B::inv(old(bus)@),
            scan_ends::<B>(old(bus)@, ptr, first, 0),
        ensures
            B::inv(final(bus)@),
            (final(bus)@, r.2, r.1, r.0 as int) == scanned::<B>(old(bus)@, ptr, first, 0),
    {
        let ghost f0 = choose|f: nat| (#[trigger] scan_digits::<B>(old(bus)@, ptr, first, 0, f)) is Some;
        let ghost target = scan_digits::<B>(old(bus)@, ptr, first, 0, f0);
        let ghost mut f = f0;
        let mut width: usize = 0;
        let mut next_b = first;
        let mut p = ptr;
        while 0x30 <= next_b && next_b <= 0x39
            invariant
                B::inv(bus@),
                target is Some,
                scan_digits::<B>(bus@, p, next_b, width as int, f) == target,
            decreases f,
        {
            width = width * 10 + (next_b - 0x30) as usize;
            next_b = bus.read8(p);
            p = p.wrapping_add(1);
            proof {
                f = (f - 1) as nat;
            }
        }
        (width, next_b, p)
    }

    /// printf: formats the string at `$a0` with `$a1..$a3` and stack words as arguments.
    fn handle_bios_printf<B: Bus>(&self, bus: &mut B)
        requires
            B::inv(old(bus)@),
            self.printf_from::<B>(old(bus)@, self.gpr[4], 1, FORMAT_LIMIT as nat) is Some,
        ensures
            B::inv(final(bus)@),
            Some(final(bus)@) == self.printf_from::<B>(old(bus)@, self.gpr[4], 1, FORMAT_LIMIT as nat),
    {
        let mut arg_idx: usize = 1;
        let mut ptr = self.gpr[4];
        let mut n: usize = 0;
        while n < FORMAT_LIMIT
            invariant
                0 <= n <= FORMAT_LIMIT,
                1 <= arg_idx <= n + 1,
                B::inv(bus@),
                self.printf_from::<B>(bus@, ptr, arg_idx as nat, (FORMAT_LIMIT - n) as nat)
                    == self.printf_from::<B>(old(bus)@, self.gpr[4], 1, FORMAT_LIMIT as nat),
                self.printf_from::<B>(old(bus)@, self.gpr[4], 1, FORMAT_LIMIT as nat) is Some,
            decreases FORMAT_LIMIT - n,
        {
            let b = bus.read8(ptr);
            if b == 0 {
                return;
            }
            ptr = ptr.wrapping_add(1);
            if b != 0x25 {
                bus.log_tty_char(b);
            } else {
                let mut zero_pad = false;
                let mut next_b = bus.read8(ptr);
                ptr = ptr.wrapping_add(1);
                if next_b == 0x30 {
                    zero_pad = true;
                    next_b = bus.read8(ptr);
                    ptr = ptr.wrapping_add(1);
                }
                let (width, conv, p) = Self::scan_width(bus, ptr, next_b);
                ptr = p;
                arg_idx = self.printf_directive_exec(bus, conv, width, zero_pad, arg_idx);
            }
            n = n + 1;
        }
    }

    /// The TTY side of a call through a BIOS vector.
    pub fn handle_bios_call<B: Bus>(&self, bus: &mut B)
        requires
            B::inv(old(bus)@),
            self.bios_call_output::<B>(old(bus)@) is Some,
        ensures
            B::inv(final(bus)@),
            Some(final(bus)@) == self.bios_call_output::<B>(old(bus)@),
    {
        let fn_code = if tty_function(self.gpr[2]) {
            self.gpr[2]
        } else if tty_function(self.gpr[9]) {
            self.gpr[9]
        } else if self.gpr[2] != 0 {
            self.gpr[2]
        } else {
            self.gpr[9]
        };
        if fn_code == 0x3C || fn_code == 0x3D {
            bus.log_tty_char(self.gpr[4] as u8);
        } else if fn_code == 0x3E {
            print_string(bus, self.gpr[4]);
        } else if fn_code == 0x3F {
            self.handle_bios_printf(bus);
        }
    }
}

/// The value of a digit character: '0'..'9', then 'a'..'f' or 'A'..'F' for ten to fifteen.
pub open spec fn digit_value(b: u8) -> int {
    if 0x30 <= b <= 0x39 {
        b - 0x30
    } else if 0x61 <= b <= 0x66 {
        b - 0x57
    } else if 0x41 <= b <= 0x46 {
        b - 0x37
    } else {
        0
    }
}

/// The number that a string of digits spells in `base`, most significant digit first.
pub open spec fn digits_value(s: Seq<u8>, base: int) -> int
    decreases s.len(),
{
    if s.len() == 0 {
        0
    } else {
        digits_value(s.drop_last(), base) * base + digit_value(s.last())
    }
}

/// Whether `b` is a digit of `base`: '0'..'9', and for base 16 also 'a'..'f' (or 'A'..'F'
/// when `upper`).
pub open spec fn is_digit_of(b: u8, base: int, upper: bool) -> bool {
    ||| 0x30 <= b <= 0x39
    ||| base == 16 && (if upper {
        0x41 <= b <= 0x46
    } else {
        0x61 <= b <= 0x66
    })
}

/// Whether `s` is written the usual way in `base`: at least one digit, all of them digits of
/// the base, and no leading zero.
pub open spec fn canonical_digits(s: Seq<u8>, base: int, upper: bool) -> bool {
    &&& s.len() >= 1
    &&& forall|i: int| 0 <= i < s.len() ==> is_digit_of(#[trigger] s[i], base, upper)
    &&& s.len() > 1 ==> s[0] != 0x30
}

/// A digit character has the value it was made from.
proof fn lemma_digit_value(d: nat, upper: bool)
    requires
        d < 16,
    ensures
        digit_value(hex_digit(d, upper)) == d,
        is_digit_of(hex_digit(d, upper), 16, upper),
        d < 10 ==> is_digit_of(hex_digit(d, upper), 10, false),
        d != 0 ==> hex_digit(d, upper) != 0x30,
        d < 10 ==> hex_digit(d, upper) == (0x30 + d) as u8,
{
}

/// `hex_digits` writes `v` the usual way in base 16.
proof fn lemma_hex_text(v: nat, upper: bool)
    ensures
        canonical_digits(hex_digits(v, upper), 16, upper),
        digits_value(hex_digits(v, upper), 16) == v,
        v != 0 ==> hex_digits(v, upper)[0] != 0x30,
    decreases v,
{
    let s = hex_digits(v, upper);
    lemma_digit_value(v % 16, upper);
    if v < 16 {
        assert(s.drop_last() =~= Seq::<u8>::empty());
        assert(digits_value(s.drop_last(), 16) == 0);
        assert(s.last() == hex_digit(v % 16, upper));
    }
    if v >= 16 {
        let p = hex_digits(v / 16, upper);
        lemma_hex_text(v / 16, upper);
        assert(s.drop_last() =~= p);
        assert(s.last() == hex_digit(v % 16, upper));
        assert(digits_value(s, 16) == digits_value(p, 16) * 16 + digit_value(s.last()));
        assert(v == (v / 16) * 16 + v % 16);
        assert(s[0] == p[0]);
        assert forall|i: int| 0 <= i < s.len() implies is_digit_of(#[trigger] s[i], 16, upper) by {
            if i < p.len() {
                assert(s[i] == p[i]);
            }
        }
    }
}

/// `dec_digits` writes `v` the usual way in base 10.
proof fn lemma_dec_text(v: nat)
    ensures
        canonical_digits(dec_digits(v), 10, false),
        digits_value(dec_digits(v), 10) == v,
        v != 0 ==> dec_digits(v)[0] != 0x30,
    decreases v,
{
    let s = dec_digits(v);
    lemma_digit_value(v % 10, false);
    if v < 10 {
        assert(s.drop_last() =~= Seq::<u8>::empty());
        assert(digits_value(s.drop_last(), 10) == 0);
        assert(s.last() == hex_digit(v % 10, false));
    }
    if v >= 10 {
        let p = dec_digits(v / 10);
        lemma_dec_text(v / 10);
        assert(s.drop_last() =~= p);
        assert(s.last() == hex_digit(v % 10, false));
        assert(digits_value(s, 10) == digits_value(p, 10) * 10 + digit_value(s.last()));
        assert(v == (v / 10) * 10 + v % 10);
        assert(s[0] == p[0]);
        assert forall|i: int| 0 <= i < s.len() implies is_digit_of(#[trigger] s[i], 10, false) by {
            if i < p.len() {
                assert(s[i] == p[i]);
            }
        }
    }
}

/// printf's number conversions print their argument the usual way: %x in lower-case and
/// %X in upper-case base 16, %u in base 10, each right-aligned in the field width; %d and
/// %i print the argument's signed value in base 10, with a leading '-' when negative.
pub proof fn lemma_printf_number_text<B: Bus>(x: Cpu, m: B::V, conv: u8, width: nat, zero: bool, idx: nat)
    requires
        x.printf_arg_ok::<B>(m, idx),
        conv == 0x78 || conv == 0x58 || conv == 0x75 || conv == 0x64 || conv == 0x69,
    ensures
        ({
            let (v, m1) = x.printf_arg::<B>(m, idx);
            let base: int = if conv == 0x78 || conv == 0x58 { 16 } else { 10 };
            exists|s: Seq<u8>|
                {
                    &&& x.printf_directive::<B>(m, conv, width, zero, idx) == Some(
                        (logged_all::<B>(m1, #[trigger] padded(s, width, zero)), idx + 1),
                    )
                    &&& if (conv == 0x64 || conv == 0x69) && sint(v) < 0 {
                        &&& s[0] == 0x2D
                        &&& canonical_digits(s.drop_first(), 10, false)
                        &&& digits_value(s.drop_first(), 10) == -sint(v)
                    } else {
                        &&& canonical_digits(s, base, conv == 0x58)
                        &&& digits_value(s, base) == if conv == 0x64 || conv == 0x69 {
                            sint(v)
                        } else {
                            v as int
                        }
                    }
                }
        }),
{
    let (v, m1) = x.printf_arg::<B>(m, idx);
    let out = x.printf_directive::<B>(m, conv, width, zero, idx);
    if conv == 0x78 || conv == 0x58 {
        let s = hex_digits(v as nat, conv == 0x58);
        lemma_hex_text(v as nat, conv == 0x58);
        assert(out == Some((logged_all::<B>(m1, padded(s, width, zero)), idx + 1)));
    } else if conv == 0x75 {
        let s = dec_digits(v as nat);
        lemma_dec_text(v as nat);
        assert(out == Some((logged_all::<B>(m1, padded(s, width, zero)), idx + 1)));
    } else if v >= 0x8000_0000 {
        let d = dec_digits((0x1_0000_0000 - v) as nat);
        lemma_dec_text((0x1_0000_0000 - v) as nat);
        let s = seq![0x2Du8] + d;
        assert(s.drop_first() =~= d);
        assert(s == signed_dec(v));
        assert(s[0] == 0x2D);
        assert(out == Some((logged_all::<B>(m1, padded(s, width, zero)), idx + 1)));
    } else {
        let s = dec_digits(v as nat);
        lemma_dec_text(v as nat);
        assert(out == Some((logged_all::<B>(m1, padded(s, width, zero)), idx + 1)));
    }
}

} // verus!

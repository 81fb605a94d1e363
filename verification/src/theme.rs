//! Theme presets, shared colors, and byte and interval formatting.
use vstd::prelude::*;
use crate::text::{decimal_text, digit, digit_char, push_char, push_decimal, push_str};

verus! {

/// A 24-bit terminal color, packed as `0xRRGGBB`.
pub type Rgb = u32;

pub const BACKGROUND: u32 = 0x10151f;
pub const PREVIEW_OK: u32 = 0x182b2a;
pub const PREVIEW_BAD: u32 = 0x361d25;
pub const SURFACE: u32 = 0x161e2a;
pub const TEXT: u32 = 0xd6dfeb;
pub const MUTED: u32 = 0x8c9bae;
pub const BORDER: u32 = 0x334256;
pub const CYAN: u32 = 0x7dd3fc;
pub const GREEN: u32 = 0x8de1bb;
pub const YELLOW: u32 = 0xf7ce82;
pub const RED: u32 = 0xf28b9c;
pub const PURPLE: u32 = 0xc4b5fd;
pub const BLUE: u32 = 0x93b1ff;

#[derive(Debug, Clone, Copy, PartialEq, Eq, Structural)]
pub enum Theme {
    Slate,
    Amber,
    Mono,
}

impl Default for Theme {
    fn default() -> (t: Theme)
        ensures
            t == Theme::Slate,
    {
        Theme::Slate
    }
}

/// Theme colors for the palette entries; other colors keep their value.
pub open spec fn themed(theme: Theme, c: Rgb) -> Rgb {
    match theme {
        Theme::Slate => c,
        Theme::Mono => {
            if c == BACKGROUND { 0x101010 }
            else if c == SURFACE { 0x191919 }
            else if c == BORDER { 0x414141 }
            else if c == PREVIEW_OK || c == PREVIEW_BAD { 0x323232 }
            else if c == TEXT { 0xe4e4e4 }
            else if c == MUTED { 0x9c9c9c }
            else if c == YELLOW || c == RED { 0xffffff }
            else { 0xd0d0d0 }
        },
        Theme::Amber => {
            if c == BACKGROUND { 0x181614 }
            else if c == SURFACE { 0x231f1a }
            else if c == BORDER { 0x4f4334 }
            else if c == PREVIEW_OK { 0x2f2d1f }
            else if c == PREVIEW_BAD { 0x38221c }
            else if c == TEXT { 0xede2d1 }
            else if c == MUTED { 0xb09d84 }
            else if c == CYAN { 0xe8ba75 }
            else if c == GREEN { 0xb8c994 }
            else if c == PURPLE { 0xd3b2a4 }
            else if c == YELLOW { 0xffd38b }
            else if c == BLUE { 0xe1cca6 }
            else { c }
        },
    }
}

impl Theme {
    /// The theme after this one: slate, amber, mono, then slate again.
    pub open spec fn spec_next(self) -> Theme {
        match self {
            Theme::Slate => Theme::Amber,
            Theme::Amber => Theme::Mono,
            Theme::Mono => Theme::Slate,
        }
    }

    pub fn next(self) -> (t: Self)
        ensures
            t == self.spec_next(),
    {
        match self {
            Theme::Slate => Theme::Amber,
            Theme::Amber => Theme::Mono,
            Theme::Mono => Theme::Slate,
        }
    }

    pub open spec fn spec_name(self) -> Seq<char> {
        match self {
            Theme::Slate => "slate"@,
            Theme::Amber => "amber"@,
            Theme::Mono => "mono"@,
        }
    }

    pub fn name(self) -> (s: &'static str)
        ensures
            s@ == self.spec_name(),
    {
        match self {
            Theme::Slate => "slate",
            Theme::Amber => "amber",
            Theme::Mono => "mono",
        }
    }

    /// The color a palette entry takes in this theme.
    pub fn color(self, c: Rgb) -> (r: Rgb)
        ensures
            r == themed(self, c),
    {
        match self {
            Theme::Slate => c,
            Theme::Mono => {
                if c == BACKGROUND { 0x101010 }
                else if c == SURFACE { 0x191919 }
                else if c == BORDER { 0x414141 }
                else if c == PREVIEW_OK || c == PREVIEW_BAD { 0x323232 }
                else if c == TEXT { 0xe4e4e4 }
                else if c == MUTED { 0x9c9c9c }
                else if c == YELLOW || c == RED { 0xffffff }
                else { 0xd0d0d0 }
            },
            Theme::Amber => {
                if c == BACKGROUND { 0x181614 }
                else if c == SURFACE { 0x231f1a }
                else if c == BORDER { 0x4f4334 }
                else if c == PREVIEW_OK { 0x2f2d1f }
                else if c == PREVIEW_BAD { 0x38221c }
                else if c == TEXT { 0xede2d1 }
                else if c == MUTED { 0xb09d84 }
                else if c == CYAN { 0xe8ba75 }
                else if c == GREEN { 0xb8c994 }
                else if c == PURPLE { 0xd3b2a4 }
                else if c == YELLOW { 0xffd38b }
                else if c == BLUE { 0xe1cca6 }
                else { c }
            },
        }
    }
}

/// Cycling the theme three times returns to the starting theme, and each step changes it.
pub proof fn lemma_theme_cycle(t: Theme)
    ensures
        t.spec_next().spec_next().spec_next() == t,
        t.spec_next() != t,
{
}

// ---------------------------------------------------------------------------------------
// Intervals

/// The value of `milliseconds / 1000` as a decimal with trailing zeros removed.
pub open spec fn seconds_text(milliseconds: nat) -> Seq<char> {
    let whole = decimal_text(milliseconds / 1000);
    let f = milliseconds % 1000;
    if f == 0 {
        whole
    } else if f % 100 == 0 {
        whole + seq!['.', digit_char(f / 100)]
    } else if f % 10 == 0 {
        whole + seq!['.', digit_char(f / 100), digit_char((f / 10) % 10)]
    } else {
        whole + seq!['.', digit_char(f / 100), digit_char((f / 10) % 10), digit_char(f % 10)]
    }
}

/// An interval's label: milliseconds below a second, whole minutes, else seconds with
/// up to three decimals and no trailing zeros.
pub open spec fn interval_text(milliseconds: u64) -> Seq<char> {
    if milliseconds < 1000 {
        decimal_text(milliseconds as nat) + "ms"@
    } else if milliseconds % 60_000 == 0 {
        decimal_text((milliseconds / 60_000) as nat) + "m"@
    } else {
        seconds_text(milliseconds as nat) + "s"@
    }
}

pub fn interval(milliseconds: u64) -> (s: String)
    ensures
        s@ == interval_text(milliseconds),
{
    let mut s = String::new();
    if milliseconds < 1000 {
        push_decimal(&mut s, milliseconds);
        push_str(&mut s, "ms");
    } else if milliseconds % 60_000 == 0 {
        push_decimal(&mut s, milliseconds / 60_000);
        push_str(&mut s, "m");
    } else {
        push_decimal(&mut s, milliseconds / 1000);
        let f = milliseconds % 1000;
        if f != 0 {
            push_char(&mut s, '.');
            push_char(&mut s, digit(f / 100));
            if f % 100 != 0 {
                push_char(&mut s, digit((f / 10) % 10));
                if f % 10 != 0 {
                    push_char(&mut s, digit(f % 10));
                }
            }
        }
        push_str(&mut s, "s");
    }
    proof { reveal_strlit("ms"); reveal_strlit("m"); reveal_strlit("s"); }
    assert(s@ =~= interval_text(milliseconds));
    s
}

// ---------------------------------------------------------------------------------------
// Byte counts

pub open spec fn power(base: nat, k: nat) -> nat
    decreases k,
{
    if k == 0 { 1 } else { base * power(base, (k - 1) as nat) }
}

/// `n / d` rounded to the nearest integer, ties to even.
pub open spec fn round_half_even(n: nat, d: nat) -> nat
    recommends d > 0,
{
    let q = n / d;
    let r = n % d;
    if 2 * r > d || (2 * r == d && q % 2 == 1) { q + 1 } else { q }
}

/// How many low bits `v` loses when converted to a 53-bit significand.
pub open spec fn dropped_bits(v: nat) -> nat
    decreases v,
{
    if v < 0x20_0000_0000_0000 { 0 } else { 1 + dropped_bits(v / 2) }
}

/// `v` converted to a double: rounded to 53 significant bits, to nearest, ties to even.
pub open spec fn double_value(v: nat) -> nat {
    let unit = power(2, dropped_bits(v));
    round_half_even(v, unit) * unit
}

/// The unit index at which a value is printed: the first unit whose next one is too
/// large, or the last unit.
pub open spec fn unit_index(f: nat, k: nat, last: nat) -> nat
    decreases last - k,
{
    if k >= last || f < power(1024, k + 1) { k } else { unit_index(f, k + 1, last) }
}

pub open spec fn unit_name(k: nat) -> Seq<char> {
    if k == 0 { "B"@ } else if k == 1 { "KiB"@ } else if k == 2 { "MiB"@ }
    else if k == 3 { "GiB"@ } else if k == 4 { "TiB"@ } else if k == 5 { "PiB"@ } else { "EiB"@ }
}

/// Tenths shown for `value` bytes when the largest unit has index `last`.
pub open spec fn shown_tenths(value: nat, last: nat) -> nat {
    let f = double_value(value);
    round_half_even(10 * f, power(1024, unit_index(f, 0, last)))
}

/// One decimal of `value` as a double, divided by 1024 per step up to unit `last`, and
/// the unit's name.
pub open spec fn bytes_text(value: nat, last: nat) -> Seq<char> {
    let t = shown_tenths(value, last);
    decimal_text(t / 10) + seq!['.', digit_char(t % 10), ' '] + unit_name(
        unit_index(double_value(value), 0, last),
    )
}

proof fn lemma_power_positive(base: nat, k: nat)
    requires
        base >= 1,
    ensures
        power(base, k) >= 1,
    decreases k,
{
    if k > 0 {
        lemma_power_positive(base, (k - 1) as nat);
        assert(base * power(base, (k - 1) as nat) >= 1) by (nonlinear_arith)
            requires base >= 1, power(base, (k - 1) as nat) >= 1;
    }
}


proof fn lemma_no_dropped_bits(v: nat)
    requires
        v < 0x20_0000_0000_0000,
    ensures
        dropped_bits(v) == 0,
{
}

proof fn lemma_rounding_facts(n: nat, d: nat)
    requires
        d >= 1,
    ensures
        n / d <= round_half_even(n, d) <= n / d + 1,
        round_half_even(n, d) * d <= n + d,
{
    let q = n / d;
    let r = n % d;
    assert(q * d + r == n && 0 <= r < d) by (nonlinear_arith)
        requires d >= 1, q == n / d, r == n % d;
    assert((q + 1) * d == q * d + d) by (nonlinear_arith);
}

/// `round_half_even(n, d)` computed from the quotient and remainder.
fn rounded_quotient(n: u128, d: u128) -> (q: u128)
    requires
        1 <= d <= 0x1_0000_0000_0000_0000,
        n < 0x1000_0000_0000_0000_0000_0000_0000_0000,
    ensures
        q == round_half_even(n as nat, d as nat),
{
    let q = n / d;
    let r = n % d;
    assert(r < d);
    assert(q <= n) by (nonlinear_arith) requires d >= 1, q == n / d;
    if 2 * r > d || (2 * r == d && q % 2 == 1) { q + 1 } else { q }
}

/// `value as f64` as an exact integer.
fn double_of(value: u64) -> (f: u128)
    ensures
        f == double_value(value as nat),
        f <= value + 4096,
{
    let v = value as u128;
    let mut unit: u128 = 1;
    let mut shift: u64 = 0;
    proof {
        assert(power(2, 0) == 1);
        assert(v / 1 == v);
    }
    while v / unit >= 0x20_0000_0000_0000
        invariant
            unit == power(2, shift as nat),
            1 <= unit <= 4096,
            shift < unit,
            v < 0x1_0000_0000_0000_0000,
            dropped_bits(v as nat) == shift + dropped_bits((v / unit) as nat),
        decreases 4096 - unit,
    {
        proof {
            assert(unit * 0x20_0000_0000_0000 <= v) by (nonlinear_arith)
                requires v / unit >= 0x20_0000_0000_0000, unit >= 1;
            assert(unit < 2048) by (nonlinear_arith)
                requires unit * 0x20_0000_0000_0000 <= v, v < 0x1_0000_0000_0000_0000;
            vstd::arithmetic::div_mod::lemma_div_denominator(v as int, unit as int, 2);
            assert(dropped_bits((v / unit) as nat) == 1 + dropped_bits(((v / unit) / 2) as nat));
        }
        unit = unit * 2;
        shift = shift + 1;
        proof {
            assert(power(2, shift as nat) == 2 * power(2, (shift - 1) as nat));
        }
    }
    proof {
        lemma_no_dropped_bits((v / unit) as nat);
        lemma_rounding_facts(v as nat, unit as nat);
    }
    let q = rounded_quotient(v, unit);
    assert(q * unit <= v + unit);
    q * unit
}

/// The text for `value` bytes with units up to index `last`.
fn byte_text(value: u64, last: u64) -> (s: String)
    requires
        5 <= last <= 6,
    ensures
        s@ == bytes_text(value as nat, last as nat),
{
    let f = double_of(value);
    let mut k: u64 = 0;
    let mut scale: u128 = 1;
    proof {
        assert(power(1024, 0) == 1);
    }
    while k < last && f >= scale * 1024
        invariant
            k <= last <= 6,
            scale == power(1024, k as nat),
            1 <= scale <= 0x1000_0000_0000_0000,
            f <= 0x1_0000_0000_0000_1000,
            unit_index(f as nat, 0, last as nat) == unit_index(f as nat, k as nat, last as nat),
        decreases last - k,
    {
        proof {
            assert(power(1024, (k + 1) as nat) == 1024 * power(1024, k as nat));
            if k < 5 {
                assert(scale <= 0x4_0000_0000_0000) by {
                    lemma_scale_bound(k as nat);
                }
            } else {
                assert(k == 5 && last == 6);
                lemma_scale_bound(k as nat);
            }
        }
        scale = scale * 1024;
        k = k + 1;
    }
    let ghost index = unit_index(f as nat, 0, last as nat);
    assert(index == k) by {
        assert(k >= last || (f as nat) < power(1024, (k + 1) as nat)) by {
            assert(power(1024, (k + 1) as nat) == 1024 * power(1024, k as nat));
        }
    }
    let t = rounded_quotient(10 * f, scale);
    proof {
        lemma_rounding_facts((10 * f) as nat, scale as nat);
        if k < last {
            assert(f < 1024 * scale);
            assert((10 * f) / (scale as int) < 10240) by (nonlinear_arith)
                requires f < 1024 * scale, scale >= 1;
        } else {
            lemma_scale_bound(4);
            assert(scale >= 1024 * power(1024, 4)) by {
                if k == 5 {
                    assert(power(1024, 5) == 1024 * power(1024, 4));
                } else {
                    assert(power(1024, 6) == 1024 * power(1024, 5));
                    assert(power(1024, 5) == 1024 * power(1024, 4));
                }
            }
            assert((10 * f) / (scale as int) < 0x10_0000) by (nonlinear_arith)
                requires f <= 0x1_0000_0000_0000_1000, scale >= 0x4_0000_0000_0000;
        }
    }
    let tenths = t as u64;
    let mut s = String::new();
    push_decimal(&mut s, tenths / 10);
    push_char(&mut s, '.');
    push_char(&mut s, digit(tenths % 10));
    push_char(&mut s, ' ');
    let unit = if k == 0 { "B" } else if k == 1 { "KiB" } else if k == 2 { "MiB" }
        else if k == 3 { "GiB" } else if k == 4 { "TiB" } else if k == 5 { "PiB" } else { "EiB" };
    push_str(&mut s, unit);
    assert(s@ =~= bytes_text(value as nat, last as nat));
    s
}

proof fn lemma_scale_bound(k: nat)
    requires
        k <= 5,
    ensures
        power(1024, k) <= power(1024, 4) * 1024,
        k <= 4 ==> power(1024, k) <= power(1024, 4),
        power(1024, 4) == 0x100_0000_0000,
    decreases k,
{
    assert(power(1024, 0) == 1);
    assert(power(1024, 1) == 1024);
    assert(power(1024, 2) == 1024 * 1024);
    assert(power(1024, 3) == 1024 * 1024 * 1024);
    assert(power(1024, 4) == 1024 * 1024 * 1024 * 1024);
    assert(power(1024, 5) == 1024 * power(1024, 4));
}

/// Byte counts in binary units up to EiB, with one decimal.
pub fn bytes(value: u64) -> (s: String)
    ensures
        s@ == bytes_text(value as nat, 6),
{
    byte_text(value, 6)
}

/// Byte counts in binary units up to PiB, with one decimal.
pub fn bytes_to_pib(value: u64) -> (s: String)
    ensures
        s@ == bytes_text(value as nat, 5),
{
    byte_text(value, 5)
}

proof fn lemma_powers_of_1024()
    ensures
        power(1024, 1) == 0x400,
        power(1024, 2) == 0x10_0000,
        power(1024, 3) == 0x4000_0000,
        power(1024, 4) == 0x100_0000_0000,
        power(1024, 5) == 0x4_0000_0000_0000,
        power(1024, 6) == 0x1000_0000_0000_0000,
{
    reveal_with_fuel(power, 7);
}

/// The text of a byte count ends in a space and the name of unit `unit_index`.
proof fn lemma_bytes_text_ends(value: nat, last: nat)
    ensures
        exists|head: Seq<char>| bytes_text(value, last)
            == #[trigger] (head + seq![' '] + unit_name(unit_index(double_value(value), 0, last))),
{
    let t = shown_tenths(value, last);
    let head = decimal_text(t / 10) + seq!['.', digit_char(t % 10)];
    assert(bytes_text(value, last) =~= head + seq![' '] + unit_name(unit_index(double_value(value), 0, last)));
}

/// Whether `text` ends with `tail`.
pub open spec fn ends_with(text: Seq<char>, tail: Seq<char>) -> bool {
    text.len() >= tail.len() && text.subrange(text.len() - tail.len(), text.len() as int) == tail
}

proof fn lemma_ends_with_unit(value: nat, last: nat, k: nat, tail: Seq<char>)
    requires
        unit_index(double_value(value), 0, last) == k,
        tail =~= seq![' '] + unit_name(k),
    ensures
        ends_with(bytes_text(value, last), tail),
{
    lemma_bytes_text_ends(value, last);
    let head = choose|head: Seq<char>| bytes_text(value, last)
        == #[trigger] (head + seq![' '] + unit_name(unit_index(double_value(value), 0, last)));
    let text = bytes_text(value, last);
    assert(text =~= head + tail);
    assert(text.subrange(text.len() - tail.len(), text.len() as int) =~= tail);
}

/// Byte counts are labelled with the binary unit of their size, one unit per factor of
/// 1024: B below 1024 bytes, then KiB, MiB, GiB, TiB, PiB and, where units go that far,
/// EiB (the count as a double decides the unit).
pub proof fn lemma_bytes_units(value: nat, last: nat)
    requires
        5 <= last <= 6,
    ensures
        double_value(value) < 0x400 ==> ends_with(bytes_text(value, last), " B"@),
        0x400 <= double_value(value) < 0x10_0000 ==> ends_with(bytes_text(value, last), " KiB"@),
        0x10_0000 <= double_value(value) < 0x4000_0000 ==> ends_with(bytes_text(value, last), " MiB"@),
        0x4000_0000 <= double_value(value) < 0x100_0000_0000 ==> ends_with(bytes_text(value, last), " GiB"@),
        0x100_0000_0000 <= double_value(value) < 0x4_0000_0000_0000 ==> ends_with(bytes_text(value, last), " TiB"@),
        0x4_0000_0000_0000 <= double_value(value) && (last == 5 || double_value(value) < 0x1000_0000_0000_0000)
            ==> ends_with(bytes_text(value, last), " PiB"@),
        last == 6 && 0x1000_0000_0000_0000 <= double_value(value) ==> ends_with(bytes_text(value, last), " EiB"@),
{
    lemma_powers_of_1024();
    reveal_with_fuel(unit_index, 8);
    reveal_strlit(" B"); reveal_strlit("B");
    reveal_strlit(" KiB"); reveal_strlit("KiB");
    reveal_strlit(" MiB"); reveal_strlit("MiB");
    reveal_strlit(" GiB"); reveal_strlit("GiB");
    reveal_strlit(" TiB"); reveal_strlit("TiB");
    reveal_strlit(" PiB"); reveal_strlit("PiB");
    reveal_strlit(" EiB"); reveal_strlit("EiB");
    let f = double_value(value);
    if f < 0x400 {
        lemma_ends_with_unit(value, last, 0, " B"@);
    } else if f < 0x10_0000 {
        lemma_ends_with_unit(value, last, 1, " KiB"@);
    } else if f < 0x4000_0000 {
        lemma_ends_with_unit(value, last, 2, " MiB"@);
    } else if f < 0x100_0000_0000 {
        lemma_ends_with_unit(value, last, 3, " GiB"@);
    } else if f < 0x4_0000_0000_0000 {
        lemma_ends_with_unit(value, last, 4, " TiB"@);
    } else if last == 5 || f < 0x1000_0000_0000_0000 {
        lemma_ends_with_unit(value, last, 5, " PiB"@);
    } else {
        lemma_ends_with_unit(value, last, 6, " EiB"@);
    }
}

} // verus!

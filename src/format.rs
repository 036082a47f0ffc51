use vstd::prelude::*;

use crate::decode::{lemma_pow10_bound, lemma_pow10_monotone, lemma_pow10_positive, pow10, power_of_ten_i64};
use crate::specification::{DataSetPacketField, PacketFieldSpec};
use crate::specification_file::Type;
use crate::text::{dec_text, push_dec, push_str, string_from_chars};

verus! {

/// The layout of a week time: abbreviated weekday, hours and minutes.
pub const WEEK_TIME_LAYOUT: &'static str = "%a,%H:%M";

/// The layout of a date and time.
pub const DATE_TIME_LAYOUT: &'static str = "%Y-%m-%d %H:%M:%S";

/// Seconds from the Unix epoch (a Thursday) to the following Monday 00:00 UTC,
/// where a week time of zero minutes falls.
pub const WEEK_TIME_OFFSET: i64 = 345_600;

/// Seconds from the Unix epoch to 2001-01-01 00:00:00 UTC.
pub const DATE_TIME_OFFSET: i64 = 978_307_200;

/// The text that chrono renders for the instant `secs` seconds after the
/// Unix epoch (UTC) with the strftime layout `layout`.
pub uninterp spec fn utc_text(secs: int, layout: Seq<char>) -> Seq<char>;

/// Relies on chrono's `DateTime::from_timestamp` (which gives `None` only
/// outside years -262143..=262142, beyond 8e12 seconds either way) and
/// `DateTime::format` with a valid strftime layout.
#[verifier::external_body]
fn format_utc(secs: i64, layout: &str) -> (r: Option<String>)
    requires
        layout@ == WEEK_TIME_LAYOUT@ || layout@ == DATE_TIME_LAYOUT@,
    ensures
        r matches Some(t) ==> t@ == utc_text(secs as int, layout@),
        -8_000_000_000_000 <= secs <= 8_000_000_000_000 ==> r is Some,
{
    match chrono::DateTime::from_timestamp(secs, 0) {
        Some(t) => Some(t.format(layout).to_string()),
        None => None,
    }
}

/// `n` zeros.
pub open spec fn zeros(n: nat) -> Seq<char> {
    Seq::new(n, |i: int| '0')
}

/// `"-"` before a negative value.
pub open spec fn sign_text(v: int) -> Seq<char> {
    if v < 0 {
        seq!['-']
    } else {
        Seq::empty()
    }
}

/// The absolute value.
pub open spec fn abs(v: int) -> nat {
    if v < 0 {
        (-v) as nat
    } else {
        v as nat
    }
}

/// The digits of `|v|`, padded with leading zeros to at least `width`.
pub open spec fn padded_digits(v: int, width: nat) -> Seq<char> {
    let d = dec_text(abs(v));
    if d.len() < width {
        zeros((width - d.len()) as nat) + d
    } else {
        d
    }
}

/// `v * 10^-precision` in decimal with exactly `precision` fractional digits
/// (none where `precision` is not positive).
pub open spec fn number_text(v: int, precision: int) -> Seq<char> {
    if precision <= 0 {
        if v == 0 {
            seq!['0']
        } else {
            sign_text(v) + dec_text(abs(v)) + zeros((-precision) as nat)
        }
    } else {
        let d = padded_digits(v, (precision + 1) as nat);
        let k = d.len() - precision;
        sign_text(v) + d.subrange(0, k) + seq!['.'] + d.subrange(k, d.len() as int)
    }
}

/// `v * 10^-precision` rounded to the nearest integer, halves away from zero.
pub open spec fn scaled_round(v: int, precision: int) -> int {
    if precision <= 0 {
        v * pow10((-precision) as nat)
    } else {
        let q = abs(v) as int / pow10(precision as nat);
        let r = abs(v) as int % pow10(precision as nat);
        let m = if 2 * r >= pow10(precision as nat) {
            q + 1
        } else {
            q
        };
        if v < 0 {
            -m
        } else {
            m
        }
    }
}

/// `v` limited to the range of `i64`.
pub open spec fn saturate(v: int) -> i64 {
    if v > i64::MAX {
        i64::MAX
    } else if v < i64::MIN {
        i64::MIN
    } else {
        v as i64
    }
}

/// An integer as with `{:02}`: at least two characters, zero-padded after the sign.
pub open spec fn two_digit_text(v: int) -> Seq<char> {
    if v < 0 {
        seq!['-'] + dec_text(abs(v))
    } else {
        padded_digits(v, 2)
    }
}

/// `"HH:MM"` for a number of minutes (quotient and remainder truncated
/// toward zero).
pub open spec fn time_text(minutes: int) -> Seq<char> {
    let h = if minutes < 0 {
        -(abs(minutes) / 60)
    } else {
        minutes / 60
    };
    let m = if minutes < 0 {
        -(abs(minutes) % 60)
    } else {
        minutes % 60
    };
    two_digit_text(h) + seq![':'] + two_digit_text(m)
}

/// A raw value ready to be rendered as text.
#[derive(Debug)]
pub struct PacketFieldFormatter {
    typ: Type,
    precision: i32,
    raw_value: Option<i64>,
    unit_text: String,
}

/// What a calendar rendering of `secs` may be: chrono's text, which it is
/// wherever chrono covers the instant, or else empty.
pub open spec fn calendar_text_ok(text: Seq<char>, secs: int, layout: Seq<char>) -> bool {
    &&& (-8_000_000_000_000 <= secs <= 8_000_000_000_000 ==> text == utc_text(secs, layout))
    &&& (text == utc_text(secs, layout) || text.len() == 0)
}

impl PacketFieldFormatter {
    pub closed spec fn spec_typ(&self) -> Type {
        self.typ
    }

    pub closed spec fn spec_precision(&self) -> i32 {
        self.precision
    }

    pub closed spec fn spec_raw_value(&self) -> Option<i64> {
        self.raw_value
    }

    pub closed spec fn spec_unit_text(&self) -> Seq<char> {
        self.unit_text@
    }

    /// The value rounded to whole units of its type (minutes or seconds).
    pub open spec fn rounded(&self, v: i64) -> int {
        saturate(scaled_round(v as int, self.spec_precision() as int)) as int
    }

    /// Renders the value: nothing where it is absent; a number with the
    /// field's fractional digits (and the unit text); `HH:MM` for a time of
    /// day; chrono's `%a,%H:%M` for a week time (minutes since Monday 00:00)
    /// and `%Y-%m-%d %H:%M:%S` for a date (seconds since 2001-01-01 UTC).
    pub fn to_string(&self) -> (r: String)
        ensures
            match self.spec_raw_value() {
                None => r@ == Seq::<char>::empty(),
                Some(v) => match self.spec_typ() {
                    Type::Number => r@ == number_text(v as int, self.spec_precision() as int) + self.spec_unit_text(),
                    Type::Time => r@ == time_text(self.rounded(v)),
                    Type::WeekTime => calendar_text_ok(r@, self.rounded(v) * 60 + WEEK_TIME_OFFSET, WEEK_TIME_LAYOUT@),
                    Type::DateTime => calendar_text_ok(r@, self.rounded(v) + DATE_TIME_OFFSET, DATE_TIME_LAYOUT@),
                },
            },
    {
        let mut out: Vec<char> = Vec::new();
        match self.raw_value {
            None => {},
            Some(v) => match self.typ {
                Type::Number => {
                    push_number(&mut out, v, self.precision);
                    push_str(&mut out, self.unit_text.as_str());
                },
                Type::Time => {
                    let t = round_scaled(v, self.precision);
                    push_time(&mut out, t);
                },
                Type::WeekTime => {
                    let t = round_scaled(v, self.precision);
                    let secs: i128 = t as i128 * 60 + WEEK_TIME_OFFSET as i128;
                    return calendar_text(secs, WEEK_TIME_LAYOUT);
                },
                Type::DateTime => {
                    let t = round_scaled(v, self.precision);
                    let secs: i128 = t as i128 + DATE_TIME_OFFSET as i128;
                    return calendar_text(secs, DATE_TIME_LAYOUT);
                },
            },
        }
        string_from_chars(&out)
    }
}

/// chrono's rendering of `secs` with `layout`, or an empty string where
/// chrono does not cover the instant.
fn calendar_text(secs: i128, layout: &str) -> (r: String)
    requires
        layout@ == WEEK_TIME_LAYOUT@ || layout@ == DATE_TIME_LAYOUT@,
    ensures
        calendar_text_ok(r@, secs as int, layout@),
{
    let empty: Vec<char> = Vec::new();
    if secs < i64::MIN as i128 || secs > i64::MAX as i128 {
        return string_from_chars(&empty);
    }
    match format_utc(secs as i64, layout) {
        Some(t) => t,
        None => string_from_chars(&empty),
    }
}

proof fn lemma_dec_text_len(v: nat)
    ensures
        v < 10 ==> dec_text(v).len() == 1,
        v >= 10 ==> dec_text(v).len() >= 2,
    decreases v,
{
    if v >= 10 {
        lemma_dec_text_nonempty(v / 10);
    }
}

/// Appends `two_digit_text(v)`.
fn push_two_digit(out: &mut Vec<char>, v: i64)
    requires
        v > i64::MIN,
    ensures
        final(out)@ == old(out)@ + two_digit_text(v as int),
{
    if v < 0 {
        out.push('-');
        push_dec(out, (0 - v) as u64);
    } else {
        proof {
            lemma_dec_text_len(v as nat);
        }
        if v < 10 {
            out.push('0');
        }
        push_dec(out, v as u64);
    }
    assert(out@ =~= old(out)@ + two_digit_text(v as int));
}

/// Appends `time_text(minutes)`.
fn push_time(out: &mut Vec<char>, minutes: i64)
    ensures
        final(out)@ == old(out)@ + time_text(minutes as int),
{
    let a: u64 = if minutes < 0 {
        (0 - (minutes as i128)) as u64
    } else {
        minutes as u64
    };
    let hq = (a / 60) as i64;
    let mr = (a % 60) as i64;
    let h = if minutes < 0 { 0 - hq } else { hq };
    let m = if minutes < 0 { 0 - mr } else { mr };
    push_two_digit(out, h);
    out.push(':');
    push_two_digit(out, m);
    assert(out@ =~= old(out)@ + time_text(minutes as int));
}

/// `saturate(scaled_round(v, precision))`.
fn round_scaled(v: i64, precision: i32) -> (r: i64)
    ensures
        r == saturate(scaled_round(v as int, precision as int)),
{
    if precision <= 0 {
        if precision < -18 {
            let ghost k = (0 - precision as i64) as nat;
            proof {
                reveal_with_fuel(pow10, 20);
                lemma_pow10_monotone(19, k);
                let p = pow10(k);
                let x = v as int;
                if v > 0 {
                    assert(x * p >= p) by (nonlinear_arith)
                        requires
                            x >= 1,
                            p >= 1,
                    ;
                } else if v < 0 {
                    assert(x * p <= -p) by (nonlinear_arith)
                        requires
                            x <= -1,
                            p >= 1,
                    ;
                }
            }
            if v == 0 {
                0
            } else if v > 0 {
                i64::MAX
            } else {
                i64::MIN
            }
        } else {
            let p = power_of_ten_i64((0 - precision) as u32);
            proof {
                lemma_pow10_positive((0 - precision) as nat);
                lemma_pow10_bound((0 - precision) as nat);
                let x = v as int;
                let q = p as int;
                assert(-9_300_000_000_000_000_000_000_000_000_000_000_000 <= x * q <= 9_300_000_000_000_000_000_000_000_000_000_000_000) by (nonlinear_arith)
                    requires
                        -9_300_000_000_000_000_000 <= x <= 9_300_000_000_000_000_000,
                        1 <= q <= 1_000_000_000_000_000_000,
                ;
            }
            let x: i128 = (v as i128) * (p as i128);
            if x > i64::MAX as i128 {
                i64::MAX
            } else if x < i64::MIN as i128 {
                i64::MIN
            } else {
                x as i64
            }
        }
    } else {
        let a: u128 = if v < 0 {
            (0 - (v as i128)) as u128
        } else {
            v as u128
        };
        if precision > 19 {
            proof {
                reveal_with_fuel(pow10, 21);
                lemma_pow10_monotone(20, precision as nat);
                let p = pow10(precision as nat);
                assert(pow10(20) == 100_000_000_000_000_000_000);
                let x = a as int;
                assert(x / p == 0 && x % p == x) by (nonlinear_arith)
                    requires
                        0 <= x < p,
                ;
            }
            0
        } else {
            let p: u128 = if precision == 19 {
                10_000_000_000_000_000_000
            } else {
                power_of_ten_i64(precision as u32) as u128
            };
            proof {
                reveal_with_fuel(pow10, 20);
                lemma_pow10_positive(precision as nat);
            }
            let q = a / p;
            let r = a % p;
            let m: u128 = if 2 * r >= p { q + 1 } else { q };
            proof {
                assert(p >= 10);
                assert(q <= a / 10) by (nonlinear_arith)
                    requires
                        p >= 10,
                        q == a / p,
                ;
            }
            if v < 0 {
                (0 - (m as i128)) as i64
            } else {
                m as i64
            }
        }
    }
}

impl<'a> DataSetPacketField<'a> {
    /// Prepares the raw value of this field for rendering.
    pub fn fmt_raw_value(&self, append_unit: bool) -> (r: PacketFieldFormatter)
        requires
            self.well_formed(),
        ensures
            r.spec_typ() == self.view_field().packet.fields[self.view_field().field_index].typ,
            r.spec_precision() == self.view_field().packet.fields[self.view_field().field_index].precision,
            r.spec_raw_value() == self.view_field().raw_value,
            r.spec_unit_text() == if append_unit {
                self.view_field().packet.fields[self.view_field().field_index].unit_text
            } else {
                Seq::<char>::empty()
            },
    {
        self.field_spec().fmt_raw_value(self.raw_value(), append_unit)
    }
}

impl PacketFieldSpec {
    /// Prepares `raw_value` (a raw integer of this field) for rendering,
    /// with the unit text where `append_unit` is set.
    pub fn fmt_raw_value(&self, raw_value: Option<i64>, append_unit: bool) -> (r: PacketFieldFormatter)
        ensures
            r.spec_typ() == self.typ,
            r.spec_precision() == self.precision,
            r.spec_raw_value() == raw_value,
            r.spec_unit_text() == if append_unit {
                self.unit_text@
            } else {
                Seq::<char>::empty()
            },
    {
        let mut unit: Vec<char> = Vec::new();
        if append_unit {
            push_str(&mut unit, self.unit_text.as_str());
        }
        assert(unit@ =~= if append_unit {
            self.unit_text@
        } else {
            Seq::<char>::empty()
        });
        PacketFieldFormatter {
            typ: self.typ,
            precision: self.precision,
            raw_value,
            unit_text: string_from_chars(&unit),
        }
    }
}

fn push_zeros(out: &mut Vec<char>, n: u64)
    ensures
        final(out)@ == old(out)@ + zeros(n as nat),
{
    let mut i: u64 = 0;
    while i < n
        invariant
            i <= n,
            out@ == old(out)@ + zeros(i as nat),
        decreases n - i,
    {
        out.push('0');
        i = i + 1;
        assert(out@ =~= old(out)@ + zeros(i as nat));
    }
}

proof fn lemma_dec_text_nonempty(v: nat)
    ensures
        dec_text(v).len() >= 1,
    decreases v,
{
    if v >= 10 {
        lemma_dec_text_nonempty(v / 10);
    }
}

/// Appends `number_text(v, precision)`.
fn push_number(out: &mut Vec<char>, v: i64, precision: i32)
    ensures
        final(out)@ == old(out)@ + number_text(v as int, precision as int),
{
    let a: u64 = if v < 0 {
        (0 - (v as i128)) as u64
    } else {
        v as u64
    };
    proof {
        lemma_dec_text_nonempty(a as nat);
    }
    if precision <= 0 {
        if v == 0 {
            out.push('0');
        } else {
            if v < 0 {
                out.push('-');
            }
            push_dec(out, a);
            push_zeros(out, (0 - (precision as i64)) as u64);
        }
    } else {
        let mut digits: Vec<char> = Vec::new();
        push_dec(&mut digits, a);
        let mut d: Vec<char> = Vec::new();
        let width: u64 = precision as u64 + 1;
        if (digits.len() as u64) < width {
            push_zeros(&mut d, width - digits.len() as u64);
        }
        let nd = digits.len();
        let mut i: usize = 0;
        let ghost start = d@;
        while i < nd
            invariant
                nd == digits@.len(),
                i <= nd,
                d@ == start + digits@.subrange(0, i as int),
            decreases nd - i,
        {
            d.push(digits[i]);
            i = i + 1;
            assert(d@ =~= start + digits@.subrange(0, i as int));
        }
        assert(digits@.subrange(0, nd as int) =~= digits@);
        assert(d@ =~= padded_digits(v as int, (precision + 1) as nat));
        if v < 0 {
            out.push('-');
        }
        let k = d.len() - precision as usize;
        let mut j: usize = 0;
        let ghost mid = out@;
        while j < d.len()
            invariant
                k == d@.len() - precision,
                0 < k <= d@.len(),
                j <= d@.len(),
                out@ == mid + if j <= k {
                    d@.subrange(0, j as int)
                } else {
                    d@.subrange(0, k as int) + seq!['.'] + d@.subrange(k as int, j as int)
                },
            decreases d@.len() - j,
        {
            if j == k {
                out.push('.');
            }
            out.push(d[j]);
            j = j + 1;
            assert(out@ =~= mid + if j <= k {
                d@.subrange(0, j as int)
            } else {
                d@.subrange(0, k as int) + seq!['.'] + d@.subrange(k as int, j as int)
            });
        }
        if k == d.len() {
            out.push('.');
        }
    }
    assert(out@ =~= old(out)@ + number_text(v as int, precision as int));
}

} // verus!

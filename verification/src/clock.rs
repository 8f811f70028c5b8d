//! UTC calendar arithmetic for the timestamps written into the plugin
//! registry: seconds since the Unix epoch to a civil date and time, and the
//! ISO-8601 text `YYYY-MM-DDThh:mm:ss.000Z` made from it.
use vstd::prelude::*;
use vstd::arithmetic::div_mod::{lemma_fundamental_div_mod, lemma_fundamental_div_mod_converse};
use crate::text::{push_char, push_str};

verus! {

broadcast use vstd::string::group_string_axioms;

/// Gregorian leap year.
pub open spec fn is_leap(y: int) -> bool {
    (y % 4 == 0 && y % 100 != 0) || y % 400 == 0
}

/// The number of days in year `y`.
pub open spec fn year_days(y: int) -> int {
    if is_leap(y) {
        366
    } else {
        365
    }
}

/// The lengths of the twelve months of year `y`.
pub open spec fn month_days(y: int) -> Seq<int> {
    seq![31, if is_leap(y) { 29 } else { 28 }, 31, 30, 31, 30, 31, 31, 30, 31, 30, 31]
}

/// Counts whole years off `days`, starting with year `y`: the year reached
/// and the days left in it.
pub open spec fn split_years(days: int, y: int) -> (int, int)
    decreases days,
{
    if days >= year_days(y) {
        split_years(days - year_days(y), y + 1)
    } else {
        (y, days)
    }
}

/// Counts whole months off `d`, starting with month index `i`: the month
/// index reached and the days left in it.
pub open spec fn split_months(d: int, md: Seq<int>, i: nat) -> (nat, int)
    decreases 12 - i,
{
    if i < 12 && d >= md[i as int] {
        split_months(d - md[i as int], md, i + 1)
    } else {
        (i, d)
    }
}

/// The (second, minute, hour, day, month, year) that `secs` seconds after
/// the epoch fall on: days are the floor of `secs / 86400`, counted off from
/// 1970 year by year and then month by month. Before the epoch the year
/// stays 1970, the month January, and the day runs below 1.
pub open spec fn epoch_to_utc_spec(secs: int) -> (int, int, int, int, int, int) {
    let days = secs / 86400;
    let rem = secs % 86400;
    let (y, dl) = split_years(days, 1970);
    let (mi, dd) = split_months(dl, month_days(y), 0);
    let h = rem / 3600;
    let rem2 = rem % 3600;
    (rem2 % 60, rem2 / 60, h, dd + 1, mi + 1int, y)
}

/// The days from 1970-01-01 to January 1st of year `y`.
pub open spec fn days_before_year(y: int) -> int
    decreases y - 1970,
{
    if y <= 1970 {
        0
    } else {
        days_before_year(y - 1) + year_days(y - 1)
    }
}

/// The sum of the first `k` entries of `md`.
pub open spec fn sum_first(md: Seq<int>, k: int) -> int
    decreases k,
{
    if k <= 0 {
        0
    } else {
        sum_first(md, k - 1) + md[k - 1]
    }
}

/// Seconds since the epoch of a civil date and time.
pub open spec fn utc_to_epoch(t: (int, int, int, int, int, int)) -> int {
    let (s, mi, h, d, mo, y) = t;
    (days_before_year(y) + sum_first(month_days(y), mo - 1) + (d - 1)) * 86400 + h * 3600 + mi
        * 60 + s
}

/// A civil date and time from 1970 on with every field in range.
pub open spec fn valid_utc(t: (int, int, int, int, int, int)) -> bool {
    let (s, mi, h, d, mo, y) = t;
    &&& y >= 1970
    &&& 1 <= mo <= 12
    &&& 1 <= d <= month_days(y)[mo - 1]
    &&& 0 <= h < 24
    &&& 0 <= mi < 60
    &&& 0 <= s < 60
}

proof fn lemma_split_years(days: int, y: int)
    requires
        days >= 0,
        y >= 1970,
    ensures
        split_years(days, y).0 >= y,
        0 <= split_years(days, y).1 < year_days(split_years(days, y).0),
        days_before_year(split_years(days, y).0) - days_before_year(y) + split_years(days, y).1
            == days,
    decreases days,
{
    if days >= year_days(y) {
        lemma_split_years(days - year_days(y), y + 1);
    }
}

proof fn lemma_split_months(d: int, md: Seq<int>, i: nat)
    requires
        md.len() == 12,
        i <= 12,
        0 <= d,
        d < sum_first(md, 12) - sum_first(md, i as int),
    ensures
        i <= split_months(d, md, i).0 < 12,
        0 <= split_months(d, md, i).1 < md[split_months(d, md, i).0 as int],
        sum_first(md, split_months(d, md, i).0 as int) - sum_first(md, i as int) + split_months(
            d,
            md,
            i,
        ).1 == d,
    decreases 12 - i,
{
    if i < 12 && d >= md[i as int] {
        assert(sum_first(md, i + 1int) == sum_first(md, i as int) + md[i as int]);
        lemma_split_months(d - md[i as int], md, i + 1);
    }
}

proof fn lemma_year_is_its_months(y: int)
    ensures
        sum_first(month_days(y), 12) == year_days(y),
{
    reveal_with_fuel(sum_first, 13);
}

/// Every instant from the epoch on is turned into a valid civil date and
/// time, and converting that back gives the same instant.
pub proof fn epoch_to_utc_round_trip(secs: int)
    requires
        secs >= 0,
    ensures
        valid_utc(epoch_to_utc_spec(secs)),
        utc_to_epoch(epoch_to_utc_spec(secs)) == secs,
{
    let days = secs / 86400;
    let rem = secs % 86400;
    lemma_fundamental_div_mod(secs, 86400);
    assert(0 <= rem < 86400);
    assert(days >= 0);
    lemma_split_years(days, 1970);
    let (y, dl) = split_years(days, 1970);
    lemma_year_is_its_months(y);
    assert(sum_first(month_days(y), 0) == 0);
    lemma_split_months(dl, month_days(y), 0);
    let h = rem / 3600;
    let rem2 = rem % 3600;
    lemma_fundamental_div_mod(rem, 3600);
    lemma_fundamental_div_mod(rem2, 60);
    assert(0 <= rem2 < 3600);
    assert(0 <= h < 24);
    assert(0 <= rem2 % 60 < 60);
    assert(0 <= rem2 / 60 < 60);
}

proof fn lemma_days_before_year_grows(y0: int, y: int)
    requires
        1970 <= y0 <= y,
    ensures
        days_before_year(y) >= days_before_year(y0),
    decreases y - y0,
{
    if y > y0 {
        lemma_days_before_year_grows(y0, y - 1);
    }
}

proof fn lemma_split_years_exact(y0: int, y: int, x: int)
    requires
        1970 <= y0 <= y,
        0 <= x < year_days(y),
    ensures
        split_years(days_before_year(y) - days_before_year(y0) + x, y0) == (y, x),
    decreases y - y0,
{
    if y > y0 {
        lemma_days_before_year_grows(y0 + 1, y);
        assert(days_before_year(y0 + 1) == days_before_year(y0) + year_days(y0));
        lemma_split_years_exact(y0 + 1, y, x);
    }
}

proof fn lemma_sum_first_grows(md: Seq<int>, i: int, k: int)
    requires
        0 <= i <= k <= md.len(),
        forall|j: int| 0 <= j < md.len() ==> md[j] > 0,
    ensures
        sum_first(md, k) >= sum_first(md, i),
    decreases k - i,
{
    if k > i {
        lemma_sum_first_grows(md, i, k - 1);
    }
}

proof fn lemma_split_months_exact(md: Seq<int>, i: nat, k: nat, x: int)
    requires
        md.len() == 12,
        forall|j: int| 0 <= j < 12 ==> md[j] > 0,
        i <= k < 12,
        0 <= x < md[k as int],
    ensures
        split_months(sum_first(md, k as int) - sum_first(md, i as int) + x, md, i) == (k, x),
    decreases k - i,
{
    if k > i {
        lemma_sum_first_grows(md, i + 1int, k as int);
        assert(sum_first(md, i + 1int) == sum_first(md, i as int) + md[i as int]);
        lemma_split_months_exact(md, i + 1, k, x);
    }
}

/// Every valid civil date and time from 1970 on is the image of exactly the
/// instant it denotes: converting it to seconds and back gives it again.
pub proof fn utc_to_epoch_round_trip(t: (int, int, int, int, int, int))
    requires
        valid_utc(t),
    ensures
        utc_to_epoch(t) >= 0,
        epoch_to_utc_spec(utc_to_epoch(t)) == t,
{
    let (s, mi, h, d, mo, y) = t;
    let md = month_days(y);
    lemma_year_is_its_months(y);
    lemma_sum_first_grows(md, 0, mo - 1);
    lemma_sum_first_grows(md, mo, 12);
    assert(sum_first(md, mo) == sum_first(md, mo - 1) + md[mo - 1]);
    assert(sum_first(md, 0) == 0);
    lemma_days_before_year_grows(1970, y);
    let x = sum_first(md, mo - 1) + d - 1;
    let days = days_before_year(y) + x;
    let r = h * 3600 + mi * 60 + s;
    let secs = utc_to_epoch(t);
    assert(secs == days * 86400 + r);
    lemma_fundamental_div_mod_converse(secs, 86400, days, r);
    lemma_fundamental_div_mod_converse(r, 3600, h, mi * 60 + s);
    lemma_fundamental_div_mod_converse(mi * 60 + s, 60, mi, s);
    assert(days_before_year(1970) == 0);
    lemma_split_years_exact(1970, y, x);
    lemma_split_months_exact(md, 0, (mo - 1) as nat, d - 1);
}

/// The length of year `y`.
fn year_length(y: i64) -> (r: i64)
    requires
        y >= 0,
    ensures
        r == year_days(y as int),
{
    if (y % 4 == 0 && y % 100 != 0) || y % 400 == 0 {
        366
    } else {
        365
    }
}

/// The length of month index `i` (0 for January) of year `y`.
fn month_length(y: i64, i: usize) -> (r: i64)
    requires
        y >= 0,
        i < 12,
    ensures
        r == month_days(y as int)[i as int],
{
    match i {
        0 => 31,
        1 => if (y % 4 == 0 && y % 100 != 0) || y % 400 == 0 {
            29
        } else {
            28
        },
        2 => 31,
        3 => 30,
        4 => 31,
        5 => 30,
        6 => 31,
        7 => 31,
        8 => 30,
        9 => 31,
        10 => 30,
        _ => 31,
    }
}

/// The UTC (second, minute, hour, day, month, year) of `secs` seconds after
/// the Unix epoch.
pub fn epoch_to_utc(secs: i64) -> (r: (i64, i64, i64, i64, i64, i64))
    ensures
        (r.0 as int, r.1 as int, r.2 as int, r.3 as int, r.4 as int, r.5 as int)
            == epoch_to_utc_spec(secs as int),
{
    let days: i64;
    let rem: i64;
    if secs >= 0 {
        days = secs / 86400;
        rem = secs % 86400;
        proof {
            lemma_fundamental_div_mod(secs as int, 86400);
        }
    } else {
        let n: i64 = -(secs + 1);
        days = -(n / 86400) - 1;
        rem = 86399 - n % 86400;
        proof {
            lemma_fundamental_div_mod(n as int, 86400);
            lemma_fundamental_div_mod_converse(
                secs as int,
                86400,
                -(n as int / 86400) - 1,
                86399 - n as int % 86400,
            );
        }
    }
    assert(days == secs as int / 86400 && rem == secs as int % 86400);
    let mut y: i64 = 1970;
    let mut dl: i64 = days;
    while dl >= year_length(y)
        invariant
            1970 <= y <= 1970 + (days - dl),
            dl <= days,
            dl >= days || dl >= 0,
            days <= 0x7fff_ffff_ffff_ffffint / 86400,
            split_years(days as int, 1970) == split_years(dl as int, y as int),
        decreases dl,
    {
        dl = dl - year_length(y);
        y = y + 1;
    }
    let mut i: usize = 0;
    while i < 12 && dl >= month_length(y, i)
        invariant
            1970 <= y,
            i <= 12,
            dl <= days,
            days >= -0x7fff_ffff_ffff_ffffint / 86400 - 1,
            split_months(split_years(days as int, 1970).1, month_days(y as int), 0)
                == split_months(dl as int, month_days(y as int), i as nat),
            split_years(days as int, 1970).0 == y,
            dl >= days || dl >= 0,
        decreases 12 - i,
    {
        dl = dl - month_length(y, i);
        i = i + 1;
    }
    let h = rem / 3600;
    let rem2 = rem % 3600;
    let m = rem2 / 60;
    let s = rem2 % 60;
    (s, m, h, dl + 1, i as i64 + 1, y)
}

/// The character of decimal digit `d`.
pub open spec fn digit_char(d: int) -> char {
    (48 + d) as char
}

/// The decimal digits of `n`, most significant first, without leading zeros.
pub open spec fn decimal(n: nat) -> Seq<char>
    decreases n,
{
    if n < 10 {
        seq![digit_char(n as int)]
    } else {
        decimal(n / 10).push(digit_char((n % 10) as int))
    }
}

/// `s` with `'0'`s put before it up to `width` characters.
pub open spec fn zero_pad(s: Seq<char>, width: int) -> Seq<char> {
    Seq::new(if width > s.len() { (width - s.len()) as nat } else { 0 }, |i: int| '0') + s
}

/// `n` written as `format!("{:0w$}", n)` writes it: sign-aware zero
/// padding to `width` characters, the sign counting toward the width.
pub open spec fn padded_decimal(n: int, width: int) -> Seq<char> {
    if n >= 0 {
        zero_pad(decimal(n as nat), width)
    } else {
        seq!['-'] + zero_pad(decimal((-n) as nat), width - 1)
    }
}

/// The ISO-8601 UTC timestamp `YYYY-MM-DDThh:mm:ss.000Z` of `secs` seconds
/// after the epoch.
pub open spec fn iso_timestamp(secs: int) -> Seq<char> {
    let (s, mi, h, d, mo, y) = epoch_to_utc_spec(secs);
    padded_decimal(y, 4) + seq!['-'] + padded_decimal(mo, 2) + seq!['-'] + padded_decimal(d, 2)
        + seq!['T'] + padded_decimal(h, 2) + seq![':'] + padded_decimal(mi, 2) + seq![':']
        + padded_decimal(s, 2) + seq!['.', '0', '0', '0', 'Z']
}

/// Appends the decimal digits of `n`.
pub fn push_decimal(dst: &mut String, n: u64)
    ensures
        final(dst)@ == old(dst)@ + decimal(n as nat),
    decreases n,
{
    if n >= 10 {
        push_decimal(dst, n / 10);
    }
    let d = (n % 10) as u8;
    push_char(dst, (48u8 + d) as char);
    assert(dst@ =~= old(dst)@ + decimal(n as nat));
}

/// Appends `n` zero-padded to `width` characters, as `{:0width$}` does.
pub fn push_padded(dst: &mut String, n: i64, width: u64)
    ensures
        final(dst)@ == old(dst)@ + padded_decimal(n as int, width as int),
{
    let mag: u64;
    let w: u64;
    if n >= 0 {
        mag = n as u64;
        w = width;
    } else {
        push_char(dst, '-');
        mag = (-(n + 1)) as u64 + 1;
        w = if width > 0 {
            width - 1
        } else {
            0
        };
    }
    let mut digits = String::new();
    push_decimal(&mut digits, mag);
    let len = digits.as_str().unicode_len();
    let ghost before = dst@;
    let mut k: u64 = 0;
    let zeros: u64 = if w > len as u64 { w - len as u64 } else { 0 };
    while k < zeros
        invariant
            k <= zeros,
            dst@ == before + Seq::new(k as nat, |i: int| '0'),
        decreases zeros - k,
    {
        push_char(dst, '0');
        k = k + 1;
        assert(dst@ =~= before + Seq::new(k as nat, |i: int| '0'));
    }
    push_str(dst, digits.as_str());
    assert(dst@ =~= old(dst)@ + padded_decimal(n as int, width as int));
}

/// The ISO-8601 UTC timestamp of `secs` seconds after the epoch.
pub fn iso_timestamp_of(secs: i64) -> (r: String)
    ensures
        r@ == iso_timestamp(secs as int),
{
    let (s, mi, h, d, mo, y) = epoch_to_utc(secs);
    let mut r = String::new();
    push_padded(&mut r, y, 4);
    push_char(&mut r, '-');
    push_padded(&mut r, mo, 2);
    push_char(&mut r, '-');
    push_padded(&mut r, d, 2);
    push_char(&mut r, 'T');
    push_padded(&mut r, h, 2);
    push_char(&mut r, ':');
    push_padded(&mut r, mi, 2);
    push_char(&mut r, ':');
    push_padded(&mut r, s, 2);
    push_char(&mut r, '.');
    push_char(&mut r, '0');
    push_char(&mut r, '0');
    push_char(&mut r, '0');
    push_char(&mut r, 'Z');
    assert(r@ =~= iso_timestamp(secs as int));
    r
}

/// Whole seconds since the Unix epoch on the system clock
/// (`SystemTime::now().duration_since(UNIX_EPOCH)`, 0 for a clock set
/// before the epoch). Nothing is stated of the value: it is the time.
#[verifier::external_body]
fn system_clock_secs() -> u64 {
    std::time::SystemTime::now().duration_since(std::time::UNIX_EPOCH).unwrap_or_default().as_secs()
}

/// The current time as an ISO-8601 UTC timestamp.
pub fn iso_now() -> (r: String)
    ensures
        exists|t: i64| r@ == #[trigger] iso_timestamp(t as int),
{
    let t = system_clock_secs();
    let r = iso_timestamp_of(t as i64);
    assert(r@ == iso_timestamp(t as i64 as int));
    r
}

} // verus!

//! Starting the server: its settings, and the socket it listens on.

use vstd::prelude::*;
use vstd::string::*;
use crate::engine::model_factory;
use crate::engine::model_factory::{DiscoveredModel, ModelType};
use crate::text;

verus! {

/// A byte size as it was written.
#[derive(Debug, Clone, PartialEq, Eq)]
pub enum Size {
    /// This many bytes.
    Bytes(u64),
    /// A number to be scaled as a floating point number: the number as it was
    /// written, and what to multiply it by.
    Scaled { number: String, multiplier: u64 },
}

/// The content of a [`Size`].
pub enum SizeView {
    Bytes(int),
    Scaled { number: Seq<char>, multiplier: int },
}

impl View for Size {
    type V = SizeView;

    open spec fn view(&self) -> SizeView {
        match *self {
            Size::Bytes(n) => SizeView::Bytes(n as int),
            Size::Scaled { number, multiplier } => SizeView::Scaled {
                number: number@,
                multiplier: multiplier as int,
            },
        }
    }
}

/// A number with decimals is scaled exactly where, without its decimal point,
/// it stays below this limit.
pub const EXACT_LIMIT: u64 = 9007199254740992;

/// The most decimals of a number that is not taken for a floating point number.
pub const MAX_DECIMALS: usize = 300;

/// A power of ten.
pub open spec fn power_of_ten(n: nat) -> int
    decreases n,
{
    if n == 0 {
        1
    } else {
        10 * power_of_ten((n - 1) as nat)
    }
}

/// The number and the unit of a size in upper case: `K`, `M` or `G`, each with
/// or without a `B`, or no unit.
pub open spec fn size_parts(size: Seq<char>) -> (Seq<char>, int) {
    if text::before_suffix(size, "GB"@) is Some {
        (text::before_suffix(size, "GB"@)->0, 1073741824)
    } else if text::before_suffix(size, "G"@) is Some {
        (text::before_suffix(size, "G"@)->0, 1073741824)
    } else if text::before_suffix(size, "MB"@) is Some {
        (text::before_suffix(size, "MB"@)->0, 1048576)
    } else if text::before_suffix(size, "M"@) is Some {
        (text::before_suffix(size, "M"@)->0, 1048576)
    } else if text::before_suffix(size, "KB"@) is Some {
        (text::before_suffix(size, "KB"@)->0, 1024)
    } else if text::before_suffix(size, "K"@) is Some {
        (text::before_suffix(size, "K"@)->0, 1024)
    } else {
        (size, 1)
    }
}

/// An unsigned number in upper case: digits with an optional decimal point, at
/// least one of them a digit, and an optional exponent; or a name of a number
/// that has no digits.
pub enum Numeral {
    Digits { whole: Seq<char>, decimals: Seq<char>, exponent: bool },
    Named,
}

/// The digits of an exponent: at least one, after an optional sign.
pub open spec fn is_exponent(s: Seq<char>) -> bool {
    text::all_digits(text::unsigned_part(s))
}

/// What follows the digits before the decimal point.
pub open spec fn after_whole(s: Seq<char>) -> Seq<char> {
    s.skip(text::digit_run(s))
}

/// The digits after the decimal point, given what follows those before it.
pub open spec fn decimals_of(rest: Seq<char>) -> Seq<char> {
    if rest.len() > 0 && rest[0] == '.' {
        rest.skip(1).take(text::digit_run(rest.skip(1)))
    } else {
        Seq::empty()
    }
}

/// What follows all the digits, given what follows those before the decimal
/// point.
pub open spec fn after_decimals(rest: Seq<char>) -> Seq<char> {
    if rest.len() > 0 && rest[0] == '.' {
        rest.skip(1).skip(text::digit_run(rest.skip(1)))
    } else {
        rest
    }
}

/// The unsigned number that `s` stands for.
pub open spec fn number_of(s: Seq<char>) -> Option<Numeral> {
    let whole = s.take(text::digit_run(s));
    let decimals = decimals_of(after_whole(s));
    let tail = after_decimals(after_whole(s));
    if s == "INF"@ || s == "INFINITY"@ || s == "NAN"@ {
        Some(Numeral::Named)
    } else if whole.len() + decimals.len() == 0 {
        None
    } else if tail.len() == 0 {
        Some(Numeral::Digits { whole, decimals, exponent: false })
    } else if tail[0] == 'E' && is_exponent(tail.skip(1)) {
        Some(Numeral::Digits { whole, decimals, exponent: true })
    } else {
        None
    }
}

/// The largest multiple of a number that is exact, by the number of its
/// decimals: a whole number of bytes only has to be a `u64`.
pub open spec fn exact_cap(decimals: nat) -> int {
    if decimals == 0 {
        u64::MAX as int
    } else {
        EXACT_LIMIT - 1
    }
}

/// Whether a number is scaled without rounding: it has no exponent, and it is
/// whole and fits, or has few digits.
pub open spec fn is_exact(number: Numeral, multiplier: int) -> bool {
    match number {
        Numeral::Digits { whole, decimals, exponent } => !exponent && decimals.len() <= MAX_DECIMALS
            && text::digits_value(whole + decimals) * multiplier <= exact_cap(decimals.len()),
        Numeral::Named => false,
    }
}

/// The size that `s` stands for. A whole number is that many bytes, or that
/// many times the unit. A fraction of a byte is dropped.
pub open spec fn size_of(s: Seq<char>) -> Result<SizeView, Seq<char>> {
    let trimmed = text::trimmed(s);
    let (before_unit, multiplier) = size_parts(text::uppered(trimmed));
    let number = text::trimmed(before_unit);
    let negative = number.len() > 0 && number[0] == '-';
    if trimmed.len() == 0 {
        Err("empty size string"@)
    } else {
        match number_of(text::unsigned_part(number)) {
            None => Err("invalid size string: "@ + s),
            Some(n) => if !is_exact(n, multiplier) {
                Ok(SizeView::Scaled { number, multiplier })
            } else if negative && text::digits_value(n->whole + n->decimals) > 0 {
                Err("negative size is not allowed: "@ + s)
            } else {
                Ok(
                    SizeView::Bytes(
                        text::digits_value(n->whole + n->decimals) * multiplier / power_of_ten(
                            n->decimals.len(),
                        ),
                    ),
                )
            },
        }
    }
}

/// The number of bytes of a unit: none, or `K`, `M` or `G` in either case,
/// with or without a `B`.
pub open spec fn unit_bytes(unit: Seq<char>) -> Option<int> {
    let upper = text::uppered(unit);
    if upper.len() == 0 {
        Some(1)
    } else if upper == "K"@ || upper == "KB"@ {
        Some(1024)
    } else if upper == "M"@ || upper == "MB"@ {
        Some(1048576)
    } else if upper == "G"@ || upper == "GB"@ {
        Some(1073741824)
    } else {
        None
    }
}

/// A whole number is the number of bytes itself, and with a unit that many
/// times the unit, exactly, wherever a `u64` can hold it.
pub proof fn law_whole_size(digits: Seq<char>, unit: Seq<char>)
    requires
        text::all_digits(digits),
        unit_bytes(unit) is Some,
        text::digits_value(digits) * unit_bytes(unit)->0 <= u64::MAX,
    ensures
        size_of(digits + unit) == Ok::<SizeView, Seq<char>>(
            SizeView::Bytes(text::digits_value(digits) * unit_bytes(unit)->0),
        ),
{
    let s = digits + unit;
    let upper = text::uppered(unit);
    let value = text::digits_value(digits);
    reveal_strlit("K");
    reveal_strlit("KB");
    reveal_strlit("M");
    reveal_strlit("MB");
    reveal_strlit("G");
    reveal_strlit("GB");
    reveal_strlit("INF");
    reveal_strlit("INFINITY");
    reveal_strlit("NAN");
    assert(text::is_digit(digits[0]));
    assert(text::is_digit(digits.last()));
    assert(text::trimmed(digits) == digits);
    assert(s[0] == digits[0]);
    if unit.len() > 0 {
        assert(upper.last() == text::upper_char(unit.last()));
        assert(s.last() == unit.last());
    } else {
        assert(s.last() == digits.last());
    }
    assert(text::trimmed(s) == s);
    assert(text::uppered(s) =~= digits + upper) by {
        assert forall|i: int| 0 <= i < digits.len() implies text::upper_char(
            #[trigger] digits[i],
        ) == digits[i] by {
            assert(text::is_digit(digits[i]));
        }
    }
    assert(text::uppered(upper) =~= upper) by {
        assert forall|i: int| 0 <= i < upper.len() implies text::upper_char(
            #[trigger] upper[i],
        ) == upper[i] by {
            assert(upper.len() <= 2);
        }
    }
    lemma_unit_split(digits, upper);
    text::lemma_first_where(digits, |c: char| !text::is_digit(c), digits.len() as int);
    assert(digits.take(digits.len() as int) == digits);
    assert(digits + Seq::<char>::empty() == digits);
    assert(number_of(digits) == Some(
        Numeral::Digits { whole: digits, decimals: Seq::empty(), exponent: false },
    )) by {
        assert(after_whole(digits).len() == 0);
        assert(decimals_of(after_whole(digits)) == Seq::<char>::empty());
        assert("INF"@[0] == 'I');
        assert("INFINITY"@[0] == 'I');
        assert("NAN"@[0] == 'N');
    }
    assert(value * unit_bytes(unit)->0 / 1 == value * unit_bytes(unit)->0);
}

/// A size of digits and a unit in upper case is split into these two.
proof fn lemma_unit_split(digits: Seq<char>, upper: Seq<char>)
    requires
        text::all_digits(digits),
        unit_bytes(upper) is Some,
        text::uppered(upper) == upper,
    ensures
        size_parts(digits + upper) == (digits, unit_bytes(upper)->0),
{
    reveal_strlit("K");
    reveal_strlit("KB");
    reveal_strlit("M");
    reveal_strlit("MB");
    reveal_strlit("G");
    reveal_strlit("GB");
    let s = digits + upper;
    let n = s.len() as int;
    assert(text::is_digit(digits.last()));
    assert(s.take(digits.len() as int) == digits);
    assert(s.take(n) == s);
    assert(upper.len() == 0 ==> s == digits);
    lemma_short_suffix(s, "GB"@);
    lemma_short_suffix(s, "G"@);
    lemma_short_suffix(s, "MB"@);
    lemma_short_suffix(s, "M"@);
    lemma_short_suffix(s, "KB"@);
    lemma_short_suffix(s, "K"@);
    assert(upper.len() == 0 ==> s[n - 1] == digits.last());
    assert(upper.len() == 1 ==> s[n - 1] == upper[0]);
    assert(upper.len() == 2 ==> s[n - 1] == upper[1] && s[n - 2] == upper[0]);
    assert(upper.len() == 1 ==> s[n - 2] == digits.last());
}

/// A text ends with one or two given characters where its last ones are these.
proof fn lemma_short_suffix(s: Seq<char>, suffix: Seq<char>)
    requires
        1 <= suffix.len() <= 2,
        s.len() > 0,
    ensures
        suffix.is_suffix_of(s) <==> s.len() >= suffix.len() && s.last() == suffix.last() && (
        suffix.len() == 2 ==> s[s.len() - 2] == suffix[0]),
{
    let n = s.len() as int;
    let m = suffix.len() as int;
    if n >= m {
        let end = s.subrange(n - m, n);
        assert(end.last() == s.last());
        assert(end[0] == s[n - m]);
        if s.last() == suffix.last() && (m == 2 ==> s[n - 2] == suffix[0]) {
            assert(suffix =~= end);
        }
    }
}

/// Splits a size in upper case into number and unit.
fn split_unit(upper: &str) -> (r: (String, u64))
    ensures
        (r.0@, r.1 as int) == size_parts(upper@),
        r.1 == 1 || r.1 == 1024 || r.1 == 1048576 || r.1 == 1073741824,
{
    if let Some(number) = text::strip_suffix(upper, "GB") {
        return (number, 1073741824);
    }
    if let Some(number) = text::strip_suffix(upper, "G") {
        return (number, 1073741824);
    }
    if let Some(number) = text::strip_suffix(upper, "MB") {
        return (number, 1048576);
    }
    if let Some(number) = text::strip_suffix(upper, "M") {
        return (number, 1048576);
    }
    if let Some(number) = text::strip_suffix(upper, "KB") {
        return (number, 1024);
    }
    if let Some(number) = text::strip_suffix(upper, "K") {
        return (number, 1024);
    }
    (String::from_str(upper), 1)
}

/// An unsigned number by the positions of its parts.
enum Parts {
    Digits { point: usize, start: usize, end: usize, exponent: bool },
    Named,
}

/// Tells whether `chars` from `from` on are the digits of an exponent.
fn exponent_at(chars: &Vec<char>, from: usize) -> (r: bool)
    requires
        from <= chars@.len(),
    ensures
        r == is_exponent(chars@.skip(from as int)),
{
    let ghost s = chars@.skip(from as int);
    let start: usize = if from < chars.len() && (chars[from] == '-' || chars[from] == '+') {
        from + 1
    } else {
        from
    };
    let ghost digits = text::unsigned_part(s);
    proof {
        if from < chars@.len() {
            assert(s[0] == chars@[from as int]);
        }
        assert(digits == chars@.skip(start as int));
    }
    let end = text::digits_end(chars, start);
    proof {
        if end == chars@.len() {
            assert forall|k: int| 0 <= k < digits.len() implies text::is_digit(
                #[trigger] digits[k],
            ) by {
                assert(digits[k] == chars@[start + k]);
            }
        } else {
            assert(digits[end - start] == chars@[end as int]);
        }
    }
    start < end && end == chars.len()
}

/// Finds the parts of an unsigned number.
fn find_parts(chars: &Vec<char>, number: &str) -> (r: Option<Parts>)
    requires
        chars@ == number@,
    ensures
        match r {
            None => number_of(chars@) is None,
            Some(Parts::Named) => number_of(chars@) == Some(Numeral::Named),
            Some(Parts::Digits { point, start, end, exponent }) => {
                &&& point <= start <= end <= chars@.len()
                &&& number_of(chars@) == Some(
                    Numeral::Digits {
                        whole: chars@.subrange(0, point as int),
                        decimals: chars@.subrange(start as int, end as int),
                        exponent,
                    },
                )
                &&& forall|k: int| 0 <= k < point ==> text::is_digit(#[trigger] chars@[k])
                &&& forall|k: int| start <= k < end ==> text::is_digit(#[trigger] chars@[k])
            },
        },
{
    if text::same(number, "INF") || text::same(number, "INFINITY") || text::same(number, "NAN") {
        return Some(Parts::Named);
    }
    let point = text::digits_end(chars, 0);
    proof {
        assert(chars@.skip(0) == chars@);
        assert(chars@.take(point as int) == chars@.subrange(0, point as int));
    }
    let ghost rest = after_whole(chars@);
    let mut start: usize = point;
    let mut end: usize = point;
    if point < chars.len() && chars[point] == '.' {
        start = point + 1;
        end = text::digits_end(chars, start);
        proof {
            assert(rest[0] == chars@[point as int]);
            assert(rest.skip(1) == chars@.skip(start as int));
            assert(decimals_of(rest) == chars@.subrange(start as int, end as int));
            assert(after_decimals(rest) == chars@.skip(end as int));
        }
    } else {
        proof {
            if point < chars@.len() {
                assert(rest[0] == chars@[point as int]);
            }
            assert(decimals_of(rest) == chars@.subrange(start as int, end as int));
            assert(after_decimals(rest) == chars@.skip(end as int));
        }
    }
    if point + (end - start) == 0 {
        return None;
    }
    let ghost tail = chars@.skip(end as int);
    if end == chars.len() {
        return Some(Parts::Digits { point, start, end, exponent: false });
    }
    proof {
        assert(tail[0] == chars@[end as int]);
        assert(tail.skip(1) == chars@.skip(end + 1));
    }
    if chars[end] == 'E' && exponent_at(chars, end + 1) {
        return Some(Parts::Digits { point, start, end, exponent: true });
    }
    None
}

/// Divides by a power of ten.
fn drop_decimals(value: u64, decimals: usize) -> (r: u64)
    ensures
        r == value as int / power_of_ten(decimals as nat),
{
    let mut r: u64 = value;
    let mut i: usize = 0;
    proof {
        assert(value as int / 1 == value);
    }
    while i < decimals
        invariant
            i <= decimals,
            r == value as int / power_of_ten(i as nat),
        decreases decimals - i,
    {
        proof {
            lemma_power_positive(i as nat);
            vstd::arithmetic::div_mod::lemma_div_denominator(
                value as int,
                power_of_ten(i as nat),
                10,
            );
            assert(power_of_ten(i as nat) * 10 == power_of_ten((i + 1) as nat));
        }
        r = r / 10;
        i = i + 1;
    }
    r
}

/// Powers of ten are positive.
proof fn lemma_power_positive(n: nat)
    ensures
        power_of_ten(n) > 0,
    decreases n,
{
    if n > 0 {
        lemma_power_positive((n - 1) as nat);
    }
}

/// The number that the parts stand for, without its decimal point, if it times
/// `multiplier` is small enough for exact arithmetic.
fn exact_digits(chars: &Vec<char>, point: usize, start: usize, end: usize, multiplier: u64) -> (r:
    Option<u64>)
    requires
        point <= start <= end <= chars@.len(),
        multiplier == 1 || multiplier == 1024 || multiplier == 1048576 || multiplier == 1073741824,
        forall|k: int| 0 <= k < point ==> text::is_digit(#[trigger] chars@[k]),
        forall|k: int| start <= k < end ==> text::is_digit(#[trigger] chars@[k]),
    ensures
        ({
            let value = text::digits_value(
                chars@.subrange(0, point as int) + chars@.subrange(start as int, end as int),
            );
            match r {
                Some(v) => v == value && value * multiplier <= exact_cap((end - start) as nat),
                None => value * multiplier > exact_cap((end - start) as nat),
            }
        }),
{
    let ghost whole = chars@.subrange(0, point as int);
    let ghost decimals = chars@.subrange(start as int, end as int);
    let most: u64 = if start == end {
        u64::MAX
    } else {
        EXACT_LIMIT - 1
    };
    let cap: u64 = most / multiplier;
    proof {
        assert forall|v: int| (#[trigger] (v * multiplier) <= most) == (v <= cap) by {
            assert((v * multiplier <= most) == (v <= most as int / multiplier as int))
                by (nonlinear_arith)
                requires
                    multiplier > 0,
            ;
        }
        text::lemma_continued_value(Seq::empty(), whole);
        assert(Seq::<char>::empty() + whole == whole);
        text::lemma_continued_value(whole, decimals);
    }
    match text::digits_up_to(chars, 0, point, 0, cap) {
        Some(before) => text::digits_up_to(chars, start, end, before, cap),
        None => {
            proof {
                lemma_continued_larger(text::digits_value(whole), decimals);
            }
            None
        },
    }
}

/// Digits written after a number never make it smaller.
proof fn lemma_continued_larger(before: int, s: Seq<char>)
    requires
        before >= 0,
        forall|i: int| 0 <= i < s.len() ==> text::is_digit(#[trigger] s[i]),
    ensures
        text::continued_value(before, s) >= before,
    decreases s.len(),
{
    if s.len() > 0 {
        assert forall|i: int| 0 <= i < s.drop_last().len() implies text::is_digit(
            #[trigger] s.drop_last()[i],
        ) by {
            assert(s.drop_last()[i] == s[i]);
        }
        lemma_continued_larger(before, s.drop_last());
        assert(text::is_digit(s[s.len() - 1]));
    }
}

/// A message about a text as it was written.
fn labelled(message: &str, s: &str) -> (r: String)
    ensures
        r@ == message@ + s@,
{
    let mut r = String::from_str(message);
    r.append(s);
    r
}

/// Parses a human-readable byte size (e.g. `"500M"`, `"1G"`, `"1024"`) into a
/// byte count.
///
/// Accepts optional `K`/`M`/`G` suffixes (case-insensitive), with or without a
/// trailing `B` (so `"500M"` and `"500MB"` are equivalent). A bare integer is
/// interpreted as a byte count.
pub fn parse_size(s: &str) -> (r: Result<Size, String>)
    ensures
        match r {
            Ok(size) => size_of(s@) == Ok::<SizeView, Seq<char>>(size@),
            Err(e) => size_of(s@) == Err::<SizeView, Seq<char>>(e@),
        },
{
    let trimmed = text::trim(s);
    if text::chars_of(trimmed.as_str()).len() == 0 {
        return Err(String::from_str("empty size string"));
    }
    let upper = text::to_upper(trimmed.as_str());
    let (before_unit, multiplier) = split_unit(upper.as_str());
    let number = text::trim(before_unit.as_str());
    let all = text::chars_of(number.as_str());
    let negative = all.len() > 0 && all[0] == '-';
    let start: usize = if all.len() > 0 && (all[0] == '-' || all[0] == '+') {
        1
    } else {
        0
    };
    let unsigned = text::slice_text(&all, start, all.len());
    proof {
        assert(unsigned@ == text::unsigned_part(number@));
    }
    let chars = text::chars_of(unsigned.as_str());
    match find_parts(&chars, unsigned.as_str()) {
        None => Err(labelled("invalid size string: ", s)),
        Some(Parts::Named) => Ok(Size::Scaled { number, multiplier }),
        Some(Parts::Digits { point, start, end, exponent }) => {
            let ghost whole = chars@.subrange(0, point as int);
            let ghost decimals = chars@.subrange(start as int, end as int);
            let digits = exact_digits(&chars, point, start, end, multiplier);
            if exponent || end - start > MAX_DECIMALS {
                return Ok(Size::Scaled { number, multiplier });
            }
            match digits {
                None => Ok(Size::Scaled { number, multiplier }),
                Some(value) => if negative && value > 0 {
                    Err(labelled("negative size is not allowed: ", s))
                } else {
                    proof {
                        assert(value * multiplier <= exact_cap((end - start) as nat));
                    }
                    Ok(Size::Bytes(drop_decimals(value * multiplier, end - start)))
                },
            }
        },
    }
}

/// Where to listen.
#[derive(Debug, Clone, PartialEq, Eq)]
pub enum BindTarget {
    /// Bind a TCP listener to this address (`host:port`).
    Tcp(String),
    /// Bind a Unix domain socket listener at this path.
    Unix(String),
}

/// The content of a [`BindTarget`].
pub enum BindTargetView {
    Tcp(Seq<char>),
    Unix(Seq<char>),
}

impl View for BindTarget {
    type V = BindTargetView;

    open spec fn view(&self) -> BindTargetView {
        match *self {
            BindTarget::Tcp(addr) => BindTargetView::Tcp(addr@),
            BindTarget::Unix(path) => BindTargetView::Unix(path@),
        }
    }
}

/// Where to listen, by `--uri` if it is set and else by `--host` and `--port`.
/// A host that holds a `:`, an IPv6 address, is put in brackets.
pub open spec fn bind_target(
    uri: Option<Seq<char>>,
    host: Seq<char>,
    port: u16,
    unix_supported: bool,
) -> Result<BindTargetView, Seq<char>> {
    match uri {
        Some(uri) => match text::after_prefix(uri, "tcp://"@) {
            Some(addr) => Ok(BindTargetView::Tcp(addr)),
            None => match text::after_prefix(uri, "unix://"@) {
                Some(path) => if unix_supported {
                    Ok(BindTargetView::Unix(path))
                } else {
                    Err("unix:// sockets are not supported on this platform"@)
                },
                None => Err("invalid --uri (expected tcp:// or unix://): "@ + uri),
            },
        },
        None => Ok(
            BindTargetView::Tcp(
                if text::holds_text(host, ":"@) {
                    "["@ + host + "]:"@ + text::decimal(port as nat)
                } else {
                    host + ":"@ + text::decimal(port as nat)
                },
            ),
        ),
    }
}

/// A text holds a colon where one of its characters is one.
proof fn lemma_holds_colon(s: Seq<char>)
    ensures
        text::holds_text(s, ":"@) <==> s.contains(':'),
{
    reveal_strlit(":");
    if s.contains(':') {
        let i = choose|i: int| 0 <= i < s.len() && s[i] == ':';
        assert(s.subrange(i, i + 1) == ":"@);
        assert(text::occurs_at(s, ":"@, i));
    }
    if text::holds_text(s, ":"@) {
        let i = choose|i: int| text::occurs_at(s, ":"@, i);
        assert(s.subrange(i, i + 1)[0] == s[i]);
        assert(s[i] == ':');
    }
}

/// Resolves where to listen.
pub fn resolve_bind_target(uri: Option<&str>, host: &str, port: u16, unix_supported: bool) -> (r:
    Result<BindTarget, String>)
    ensures
        ({
            let target = bind_target(
                match uri {
                    Some(uri) => Some(uri@),
                    None => None,
                },
                host@,
                port,
                unix_supported,
            );
            match r {
                Ok(t) => target == Ok::<BindTargetView, Seq<char>>(t@),
                Err(e) => target == Err::<BindTargetView, Seq<char>>(e@),
            }
        }),
        uri matches Some(uri) ==> (match r {
            Ok(BindTarget::Tcp(addr)) => uri@ == "tcp://"@ + addr@,
            Ok(BindTarget::Unix(path)) => unix_supported && uri@ == "unix://"@ + path@,
            Err(e) => text::after_prefix(uri@, "tcp://"@) is None && (if text::after_prefix(
                uri@,
                "unix://"@,
            ) is Some {
                !unix_supported && e@ == "unix:// sockets are not supported on this platform"@
            } else {
                e@ == "invalid --uri (expected tcp:// or unix://): "@ + uri@
            }),
        }),
        uri is None ==> (r matches Ok(BindTarget::Tcp(addr)) && addr@ == (if host@.contains(':') {
            seq!['['] + host@ + seq![']', ':']
        } else {
            host@ + seq![':']
        }) + text::decimal(port as nat)),
{
    proof {
        reveal_strlit(":");
        reveal_strlit("[");
        reveal_strlit("]:");
        assert(":"@ == seq![':']);
        assert("["@ == seq!['[']);
        assert("]:"@ == seq![']', ':']);
        lemma_holds_colon(host@);
        if let Some(uri) = uri {
            text::law_after_prefix(uri@, "tcp://"@);
            text::law_after_prefix(uri@, "unix://"@);
        }
    }
    if let Some(uri) = uri {
        if let Some(addr) = text::strip_prefix(uri, "tcp://") {
            return Ok(BindTarget::Tcp(addr));
        }
        if let Some(path) = text::strip_prefix(uri, "unix://") {
            if unix_supported {
                return Ok(BindTarget::Unix(path));
            }
            return Err(String::from_str("unix:// sockets are not supported on this platform"));
        }
        return Err(labelled("invalid --uri (expected tcp:// or unix://): ", uri));
    }
    let mut addr = String::new();
    if text::contains_text(host, ":") {
        addr.append("[");
        addr.append(host);
        addr.append("]:");
    } else {
        addr.append(host);
        addr.append(":");
    }
    addr.append(text::to_decimal(port as u64).as_str());
    Ok(BindTarget::Tcp(addr))
}

/// The file descriptor on which systemd passes the first listening socket.
pub const SD_LISTEN_FDS_START: i32 = 3;

/// The socket that systemd has passed, given the values of `LISTEN_PID` and
/// `LISTEN_FDS`: exactly one, and to this process.
pub open spec fn passed_socket(
    listen_pid: Option<Seq<char>>,
    listen_fds: Option<Seq<char>>,
    pid: u32,
) -> Option<i32> {
    if listen_pid is Some && text::u32_value(listen_pid->0) == Some(pid) && listen_fds is Some
        && text::u32_value(listen_fds->0) == Some(1u32) {
        Some(SD_LISTEN_FDS_START)
    } else {
        None
    }
}

/// Decides whether systemd has passed a pre-bound listening socket, given the
/// values of `LISTEN_PID` and `LISTEN_FDS` and this process's id.
///
/// A socket that was passed must not be claimed again: both variables are to
/// be cleared then.
pub fn systemd_listen_fd(listen_pid: Option<&str>, listen_fds: Option<&str>, pid: u32) -> (r:
    Option<i32>)
    ensures
        r == passed_socket(
            match listen_pid {
                Some(s) => Some(s@),
                None => None,
            },
            match listen_fds {
                Some(s) => Some(s@),
                None => None,
            },
            pid,
        ),
        r is Some <==> (listen_pid matches Some(p) && text::u32_value(p@) == Some(pid)) && (
        listen_fds matches Some(n) && text::u32_value(n@) == Some(1u32)),
        r matches Some(fd) ==> fd == 3,
{
    match listen_pid {
        None => None,
        Some(listen_pid) => match text::parse_u32(listen_pid) {
            None => None,
            Some(expected) => {
                if expected != pid {
                    return None;
                }
                match listen_fds {
                    None => None,
                    Some(listen_fds) => match text::parse_u32(listen_fds) {
                        Some(1) => Some(SD_LISTEN_FDS_START),
                        _ => None,
                    },
                }
            },
        },
    }
}

/// Identifies a Unix domain socket file on disk.
#[derive(Debug, Clone, Copy, PartialEq, Eq, Structural)]
pub struct SocketInode {
    /// Device ID of the filesystem the socket file lives on.
    pub dev: u64,
    /// Inode number of the socket file.
    pub ino: u64,
}

/// A bound listener, as far as it matters who owns its socket file.
#[derive(Debug, Clone, PartialEq, Eq)]
pub enum Listener {
    /// TCP listener, with its address if that is known.
    Tcp(Option<String>),
    /// Unix domain socket listener, with its bound path and inode identity.
    Unix { path: String, inode: SocketInode },
    /// Unix domain socket listener passed by systemd, with its path if that is
    /// known. The socket file is owned and managed by systemd.
    Systemd(Option<String>),
}

impl Listener {
    /// The bound address for display.
    pub open spec fn address(&self) -> Seq<char> {
        match *self {
            Listener::Tcp(Some(addr)) => addr@,
            Listener::Tcp(None) => "unknown"@,
            Listener::Unix { path, .. } => "unix://"@ + path@,
            Listener::Systemd(Some(path)) => "unix://"@ + path@ + " (systemd)"@,
            Listener::Systemd(None) => "unix://systemd-socket (systemd)"@,
        }
    }

    /// Display string for the bound address, used in the startup log line.
    pub fn display_addr(&self) -> (r: String)
        ensures
            r@ == self.address(),
            match self {
                Listener::Tcp(Some(addr)) => r@ == addr@,
                Listener::Tcp(None) => r@ == "unknown"@,
                Listener::Unix { path, .. } => r@ == "unix://"@ + path@,
                Listener::Systemd(Some(path)) => r@ == "unix://"@ + path@ + " (systemd)"@,
                Listener::Systemd(None) => r@ == "unix://systemd-socket (systemd)"@,
            },
    {
        match self {
            Listener::Tcp(Some(addr)) => addr.clone(),
            Listener::Tcp(None) => String::from_str("unknown"),
            Listener::Unix { path, .. } => labelled("unix://", path.as_str()),
            Listener::Systemd(Some(path)) => {
                let mut r = String::from_str("unix://");
                r.append(path.as_str());
                r.append(" (systemd)");
                r
            },
            Listener::Systemd(None) => String::from_str("unix://systemd-socket (systemd)"),
        }
    }

    /// Decides whether to remove the socket file on shutdown, given the
    /// identity of the file that is at the path then.
    ///
    /// It is removed only if it is still the socket that this listener bound;
    /// one that another process has since bound there is left alone, and so is
    /// one that systemd passed.
    pub fn removes_socket(&self, found: Option<SocketInode>) -> (r: bool)
        ensures
            r == (self is Unix && found == Some(self->Unix_inode)),
    {
        match self {
            Listener::Unix { inode, .. } => match found {
                Some(found) => found == *inode,
                None => false,
            },
            _ => false,
        }
    }
}

/// What to do about an attempt to bind a Unix domain socket.
#[derive(Debug, Clone, Copy, PartialEq, Eq, Structural)]
pub enum BindStep {
    /// The socket is bound.
    Bound,
    /// Remove the file at its path, which a previous run has left behind, and
    /// bind once more.
    RemoveAndRetry,
    /// Give up.
    Fail,
}

/// How an attempt to bind a Unix domain socket went.
#[derive(Debug, Clone, Copy, PartialEq, Eq, Structural)]
pub enum BindAttempt {
    /// It succeeded.
    Succeeded,
    /// The address is in use.
    InUse,
    /// It failed otherwise.
    Failed,
}

/// What to do about an attempt to bind: a stale socket is removed once.
pub open spec fn bind_step_of(attempt: BindAttempt, retried: bool) -> BindStep {
    match attempt {
        BindAttempt::Succeeded => BindStep::Bound,
        BindAttempt::InUse => if retried {
            BindStep::Fail
        } else {
            BindStep::RemoveAndRetry
        },
        BindAttempt::Failed => BindStep::Fail,
    }
}

/// Decides what to do about an attempt to bind a Unix domain socket. The file
/// at its path is removed only if binding failed because of it.
pub fn bind_step(attempt: BindAttempt, retried: bool) -> (r: BindStep)
    ensures
        r == bind_step_of(attempt, retried),
        r is Bound <==> attempt is Succeeded,
        r is RemoveAndRetry <==> attempt is InUse && !retried,
{
    match attempt {
        BindAttempt::Succeeded => BindStep::Bound,
        BindAttempt::InUse => if retried {
            BindStep::Fail
        } else {
            BindStep::RemoveAndRetry
        },
        BindAttempt::Failed => BindStep::Fail,
    }
}

/// The lines that list some models.
pub open spec fn model_lines(models: Seq<DiscoveredModel>) -> Seq<char>
    decreases models.len(),
{
    if models.len() == 0 {
        Seq::empty()
    } else {
        model_lines(models.drop_last()) + "  "@ + models.last().name@ + "  ("@
            + models.last().model_type.shown() + ")\n"@
    }
}

/// The listing of the models that were found.
pub open spec fn model_listing(model_path: Seq<char>, models: Seq<DiscoveredModel>) -> Seq<char> {
    if models.len() == 0 {
        "No supported models found in '"@ + model_path + "'\n"@
    } else {
        "Models in '"@ + model_path + "':\n\n"@ + model_lines(models)
    }
}

/// Writes the listing of the models that were found, for `--list-models`.
pub fn print_discovered_models(model_path: &str, discovered: &[DiscoveredModel]) -> (r: String)
    ensures
        r@ == model_listing(model_path@, discovered@),
{
    let mut r = String::new();
    if discovered.len() == 0 {
        r.append("No supported models found in '");
        r.append(model_path);
        r.append("'\n");
        return r;
    }
    r.append("Models in '");
    r.append(model_path);
    r.append("':\n\n");
    let ghost head = r@;
    let mut i: usize = 0;
    proof {
        assert(discovered@.take(0) == Seq::<DiscoveredModel>::empty());
        assert(r@ == head + model_lines(discovered@.take(0)));
    }
    while i < discovered.len()
        invariant
            i <= discovered@.len(),
            r@ == head + model_lines(discovered@.take(i as int)),
        decreases discovered@.len() - i,
    {
        let m = &discovered[i];
        let ghost before = discovered@.take(i as int);
        proof {
            assert(discovered@.take(i + 1).drop_last() == before);
            assert(discovered@.take(i + 1).last() == m);
        }
        r.append("  ");
        r.append(m.name.as_str());
        r.append("  (");
        r.append(m.model_type.display_name());
        r.append(")\n");
        proof {
            assert(r@ == head + model_lines(discovered@.take(i + 1)));
        }
        i = i + 1;
    }
    proof {
        assert(discovered@.take(i as int) == discovered@);
    }
    r
}

/// What to start with.
pub enum Startup<'a> {
    /// Print this and exit.
    List(String),
    /// Load these models.
    Load(Vec<&'a DiscoveredModel>),
    /// No model was found; fail with this message.
    NoModels(String),
    /// The requested models are not what was found: the reason, and where it
    /// was looked for.
    BadRequest { context: String, reason: String },
}

/// The content of a [`Startup`].
pub enum StartupView {
    List(Seq<char>),
    Load(Seq<(Seq<char>, (Seq<char>, ModelType))>),
    NoModels(Seq<char>),
    BadRequest { context: Seq<char>, reason: Seq<char> },
}

impl<'a> Startup<'a> {
    /// The content of a startup plan.
    pub open spec fn view(&self) -> StartupView {
        match *self {
            Startup::List(s) => StartupView::List(s@),
            Startup::Load(models) => StartupView::Load(model_factory::refs_view(models@)),
            Startup::NoModels(message) => StartupView::NoModels(message@),
            Startup::BadRequest { context, reason } => StartupView::BadRequest {
                context: context@,
                reason: reason@,
            },
        }
    }
}

/// What to start with.
pub open spec fn startup_of(
    model_path: Seq<char>,
    list_models: bool,
    discovered: Seq<DiscoveredModel>,
    requested: Seq<Seq<char>>,
) -> StartupView {
    if list_models {
        StartupView::List(model_listing(model_path, discovered))
    } else if discovered.len() == 0 {
        StartupView::NoModels("no supported TTS models found in '"@ + model_path + "'"@)
    } else {
        match model_factory::models_to_load(discovered, requested, "--model-tts"@) {
            Ok(models) => StartupView::Load(models),
            Err(reason) => StartupView::BadRequest {
                context: "in '"@ + model_path + "'"@,
                reason,
            },
        }
    }
}

/// Decides what to start with: with `--list-models` a listing of the models
/// that were found, and else the models to load, in order.
pub fn startup<'a>(
    model_path: &str,
    list_models: bool,
    discovered: &'a [DiscoveredModel],
    requested: &[String],
) -> (r: Startup<'a>)
    ensures
        r.view() == startup_of(
            model_path@,
            list_models,
            discovered@,
            text::texts(requested@),
        ),
        list_models ==> (r matches Startup::List(s) && s@ == model_listing(
            model_path@,
            discovered@,
        )),
        !list_models && discovered@.len() == 0 ==> (r matches Startup::NoModels(message)
            && message@ == "no supported TTS models found in '"@ + model_path@ + "'"@),
        r matches Startup::BadRequest { context, .. } ==> context@ == "in '"@ + model_path@ + "'"@,
        !list_models && discovered@.len() > 0 ==> (match model_factory::models_to_load(
            discovered@,
            text::texts(requested@),
            "--model-tts"@,
        ) {
            Ok(models) => r matches Startup::Load(chosen) && model_factory::refs_view(chosen@)
                == models,
            Err(why) => r matches Startup::BadRequest { reason, .. } && reason@ == why,
        }),
        r is List <==> list_models,
        r is NoModels <==> !list_models && discovered@.len() == 0,
{
    if list_models {
        return Startup::List(print_discovered_models(model_path, discovered));
    }
    if discovered.len() == 0 {
        let mut message = String::from_str("no supported TTS models found in '");
        message.append(model_path);
        message.append("'");
        return Startup::NoModels(message);
    }
    match model_factory::resolve_models_to_load(discovered, requested) {
        Ok(models) => Startup::Load(models),
        Err(reason) => {
            let mut context = String::from_str("in '");
            context.append(model_path);
            context.append("'");
            Startup::BadRequest { context, reason }
        },
    }
}

/// The listing names every model that was found, one to a line and in order, with
/// its type.
pub proof fn law_models_listed(
    model_path: Seq<char>,
    models: Seq<DiscoveredModel>,
    next: DiscoveredModel,
)
    ensures
        model_listing(model_path, models.push(next)) == (if models.len() == 0 {
            "Models in '"@ + model_path + "':\n\n"@
        } else {
            model_listing(model_path, models)
        }) + "  "@ + next.name@ + "  ("@ + next.model_type.shown() + ")\n"@,
        model_listing(model_path, Seq::empty()) == "No supported models found in '"@ + model_path
            + "'\n"@,
{
    let longer = models.push(next);
    assert(longer.drop_last() == models);
    assert(model_lines(Seq::empty()) == Seq::<char>::empty());
    let head = "Models in '"@ + model_path + "':\n\n"@;
    if models.len() == 0 {
        assert(models == Seq::<DiscoveredModel>::empty());
    }
    assert(head + (model_lines(models) + "  "@ + next.name@ + "  ("@ + next.model_type.shown()
        + ")\n"@) =~= head + model_lines(models) + "  "@ + next.name@ + "  ("@
        + next.model_type.shown() + ")\n"@);
    assert(head + Seq::<char>::empty() =~= head);
}

/// A number with decimals is that many times the unit, less the fraction of a
/// byte, wherever its digits are few enough.
pub proof fn law_decimal_size(whole: Seq<char>, decimals: Seq<char>, unit: Seq<char>)
    requires
        text::all_digits(whole),
        text::all_digits(decimals),
        decimals.len() <= 300,
        unit_bytes(unit) is Some,
        text::digits_value(whole + decimals) * unit_bytes(unit)->0 < 0x20_0000_0000_0000,
    ensures
        size_of(whole + seq!['.'] + decimals + unit) == Ok::<SizeView, Seq<char>>(
            SizeView::Bytes(
                text::digits_value(whole + decimals) * unit_bytes(unit)->0
                    / vstd::arithmetic::power::pow(10, decimals.len()),
            ),
        ),
{
    let number = whole + seq!['.'] + decimals;
    let n = whole.len() as int;
    assert(text::is_digit(decimals.last()));
    assert(text::is_digit(whole[0]));
    assert(number[0] == whole[0]);
    assert(number.last() == decimals.last());
    assert forall|i: int| 0 <= i < number.len() implies text::upper_char(#[trigger] number[i])
        == number[i] by {
        if i < n {
            assert(number[i] == whole[i]);
            assert(text::is_digit(whole[i]));
        } else if i > n {
            assert(number[i] == decimals[i - n - 1]);
            assert(text::is_digit(decimals[i - n - 1]));
        }
    }
    lemma_number_and_unit(number, unit);
    lemma_names_of_numbers(number);
    assert(text::unsigned_part(number) == number);
    assert(number_of(number) == Some(Numeral::Digits { whole, decimals, exponent: false })) by {
        assert forall|k: int| 0 <= k < n implies text::is_digit(#[trigger] number[k]) by {
            assert(number[k] == whole[k]);
        }
        assert(number[n] == '.');
        text::lemma_first_where(number, |c: char| !text::is_digit(c), n);
        assert(number.take(n) == whole);
        let rest = number.skip(n);
        assert(rest[0] == '.');
        assert(rest.skip(1) == decimals);
        text::lemma_first_where(
            decimals,
            |c: char| !text::is_digit(c),
            decimals.len() as int,
        );
        assert(decimals.take(decimals.len() as int) == decimals);
        assert(decimals.skip(decimals.len() as int).len() == 0);
    }
    lemma_power_of_ten(decimals.len());
}

/// A number below zero is refused, with the text as it was written.
pub proof fn law_negative_size(digits: Seq<char>, unit: Seq<char>)
    requires
        text::all_digits(digits),
        text::digits_value(digits) > 0,
        unit_bytes(unit) is Some,
        text::digits_value(digits) * unit_bytes(unit)->0 <= u64::MAX,
    ensures
        size_of(seq!['-'] + digits + unit) == Err::<SizeView, Seq<char>>(
            "negative size is not allowed: "@ + (seq!['-'] + digits + unit),
        ),
{
    let number = seq!['-'] + digits;
    assert(text::is_digit(digits.last()));
    assert(number.last() == digits.last());
    assert forall|i: int| 0 <= i < number.len() implies text::upper_char(#[trigger] number[i])
        == number[i] by {
        if i > 0 {
            assert(number[i] == digits[i - 1]);
            assert(text::is_digit(digits[i - 1]));
        }
    }
    lemma_number_and_unit(number, unit);
    lemma_names_of_numbers(digits);
    assert(text::unsigned_part(number) == digits);
    assert(text::is_digit(digits[0]));
    text::lemma_first_where(digits, |c: char| !text::is_digit(c), digits.len() as int);
    assert(digits.take(digits.len() as int) == digits);
    assert(digits + Seq::<char>::empty() == digits);
    assert(number_of(digits) == Some(
        Numeral::Digits { whole: digits, decimals: Seq::empty(), exponent: false },
    )) by {
        assert(after_whole(digits).len() == 0);
        assert(decimals_of(after_whole(digits)) == Seq::<char>::empty());
    }
}

/// A size that is empty, or white space, is refused as such.
pub proof fn law_empty_size(s: Seq<char>)
    requires
        forall|i: int| 0 <= i < s.len() ==> text::is_space(#[trigger] s[i]),
    ensures
        size_of(s) == Err::<SizeView, Seq<char>>("empty size string"@),
{
    text::law_trimmed(s, Seq::empty(), Seq::empty());
    assert(s + Seq::<char>::empty() + Seq::<char>::empty() == s);
}

/// White space around a size, and between its number and its unit, makes no
/// difference to it, but that a message repeats the text as it was written.
pub proof fn law_spaced_size(before: Seq<char>, size: Seq<char>, after: Seq<char>)
    requires
        forall|i: int| 0 <= i < before.len() ==> text::is_space(#[trigger] before[i]),
        forall|i: int| 0 <= i < after.len() ==> text::is_space(#[trigger] after[i]),
        size.len() > 0,
        !text::is_space(size[0]),
        !text::is_space(size.last()),
    ensures
        size_of(size) matches Ok(view) ==> size_of(before + size + after) == Ok::<
            SizeView,
            Seq<char>,
        >(view),
        size_of(size) is Err ==> size_of(before + size + after) is Err,
{
    text::law_trimmed(before, size, after);
    text::law_trimmed(Seq::empty(), size, Seq::empty());
    assert(Seq::<char>::empty() + size + Seq::<char>::empty() == size);
}

/// A number and a unit after it are told apart.
proof fn lemma_number_and_unit(number: Seq<char>, unit: Seq<char>)
    requires
        number.len() > 0,
        !text::is_space(number[0]),
        text::is_digit(number.last()),
        forall|i: int| 0 <= i < number.len() ==> text::upper_char(#[trigger] number[i])
            == number[i],
        unit_bytes(unit) is Some,
    ensures
        text::trimmed(number + unit) == number + unit,
        text::trimmed(number) == number,
        size_parts(text::uppered(number + unit)) == (number, unit_bytes(unit)->0),
{
    reveal_strlit("K");
    reveal_strlit("KB");
    reveal_strlit("M");
    reveal_strlit("MB");
    reveal_strlit("G");
    reveal_strlit("GB");
    let all = number + unit;
    let upper = text::uppered(unit);
    assert(all[0] == number[0]);
    if unit.len() > 0 {
        assert(upper.last() == text::upper_char(unit.last()));
        assert(all.last() == unit.last());
    } else {
        assert(all.last() == number.last());
    }
    text::law_trimmed(Seq::empty(), all, Seq::empty());
    assert(Seq::<char>::empty() + all + Seq::<char>::empty() == all);
    text::law_trimmed(Seq::empty(), number, Seq::empty());
    assert(Seq::<char>::empty() + number + Seq::<char>::empty() == number);
    let s = number + upper;
    assert(text::uppered(all) =~= s);
    let n = s.len() as int;
    assert(s.take(number.len() as int) == number);
    assert(s.take(n) == s);
    assert(upper.len() == 0 ==> s == number);
    lemma_short_suffix(s, "GB"@);
    lemma_short_suffix(s, "G"@);
    lemma_short_suffix(s, "MB"@);
    lemma_short_suffix(s, "M"@);
    lemma_short_suffix(s, "KB"@);
    lemma_short_suffix(s, "K"@);
    assert(upper.len() == 0 ==> s[n - 1] == number.last());
    assert(upper.len() == 1 ==> s[n - 1] == upper[0]);
    assert(upper.len() == 2 ==> s[n - 1] == upper[1] && s[n - 2] == upper[0]);
    assert(upper.len() == 1 ==> s[n - 2] == number.last());
}

/// A number that begins with a digit is not one of those that have a name.
proof fn lemma_names_of_numbers(number: Seq<char>)
    requires
        number.len() > 0,
        text::is_digit(number[0]),
    ensures
        number != "INF"@,
        number != "INFINITY"@,
        number != "NAN"@,
{
    reveal_strlit("INF");
    reveal_strlit("INFINITY");
    reveal_strlit("NAN");
    assert("INF"@[0] == 'I');
    assert("INFINITY"@[0] == 'I');
    assert("NAN"@[0] == 'N');
}

/// The powers of ten are what they are called.
proof fn lemma_power_of_ten(n: nat)
    ensures
        power_of_ten(n) == vstd::arithmetic::power::pow(10, n),
    decreases n,
{
    reveal(vstd::arithmetic::power::pow);
    if n > 0 {
        lemma_power_of_ten((n - 1) as nat);
    }
}

/// A number with an exponent is handed on as it was written, with its unit, to be
/// scaled as a floating point number.
pub proof fn law_exponent_size(whole: Seq<char>, exponent: Seq<char>, unit: Seq<char>)
    requires
        text::all_digits(whole),
        text::all_digits(exponent),
        unit_bytes(unit) is Some,
    ensures
        size_of(whole + seq!['E'] + exponent + unit) == Ok::<SizeView, Seq<char>>(
            SizeView::Scaled {
                number: whole + seq!['E'] + exponent,
                multiplier: unit_bytes(unit)->0,
            },
        ),
{
    let number = whole + seq!['E'] + exponent;
    let n = whole.len() as int;
    assert(text::is_digit(whole[0]));
    assert(text::is_digit(exponent.last()));
    assert(number[0] == whole[0]);
    assert(number.last() == exponent.last());
    assert forall|i: int| 0 <= i < number.len() implies text::upper_char(#[trigger] number[i])
        == number[i] by {
        if i < n {
            assert(number[i] == whole[i]);
            assert(text::is_digit(whole[i]));
        } else if i > n {
            assert(number[i] == exponent[i - n - 1]);
            assert(text::is_digit(exponent[i - n - 1]));
        }
    }
    lemma_number_and_unit(number, unit);
    lemma_names_of_numbers(number);
    assert(text::unsigned_part(number) == number);
    assert(number_of(number) == Some(
        Numeral::Digits { whole, decimals: Seq::empty(), exponent: true },
    )) by {
        assert forall|k: int| 0 <= k < n implies text::is_digit(#[trigger] number[k]) by {
            assert(number[k] == whole[k]);
        }
        assert(number[n] == 'E');
        text::lemma_first_where(number, |c: char| !text::is_digit(c), n);
        assert(number.take(n) == whole);
        let rest = number.skip(n);
        assert(rest[0] == 'E');
        assert(rest.skip(1) == exponent);
        assert(text::is_digit(exponent[0]));
        assert(text::unsigned_part(exponent) == exponent);
    }
}

/// A whole number that is too large for a count of bytes is handed on as it was
/// written, with its unit.
pub proof fn law_large_size(digits: Seq<char>, unit: Seq<char>)
    requires
        text::all_digits(digits),
        unit_bytes(unit) is Some,
        text::digits_value(digits) * unit_bytes(unit)->0 > u64::MAX,
    ensures
        size_of(digits + unit) == Ok::<SizeView, Seq<char>>(
            SizeView::Scaled { number: digits, multiplier: unit_bytes(unit)->0 },
        ),
{
    assert(text::is_digit(digits[0]));
    assert(text::is_digit(digits.last()));
    assert forall|i: int| 0 <= i < digits.len() implies text::upper_char(#[trigger] digits[i])
        == digits[i] by {
        assert(text::is_digit(digits[i]));
    }
    lemma_number_and_unit(digits, unit);
    lemma_names_of_numbers(digits);
    assert(text::unsigned_part(digits) == digits);
    text::lemma_first_where(digits, |c: char| !text::is_digit(c), digits.len() as int);
    assert(digits.take(digits.len() as int) == digits);
    assert(digits + Seq::<char>::empty() == digits);
    assert(number_of(digits) == Some(
        Numeral::Digits { whole: digits, decimals: Seq::empty(), exponent: false },
    )) by {
        assert(after_whole(digits).len() == 0);
        assert(decimals_of(after_whole(digits)) == Seq::<char>::empty());
    }
}

/// A number with anything but a unit after it is refused, with the text as it was
/// written.
pub proof fn law_invalid_size(digits: Seq<char>, last: char)
    requires
        text::all_digits(digits),
        !text::is_digit(last),
        !text::is_space(last),
        last != '.',
        last != 'k',
        last != 'K',
        last != 'm',
        last != 'M',
        last != 'g',
        last != 'G',
    ensures
        size_of(digits.push(last)) == Err::<SizeView, Seq<char>>(
            "invalid size string: "@ + digits.push(last),
        ),
{
    reveal_strlit("K");
    reveal_strlit("KB");
    reveal_strlit("M");
    reveal_strlit("MB");
    reveal_strlit("G");
    reveal_strlit("GB");
    let s = digits.push(last);
    let upper = text::uppered(s);
    let n = digits.len() as int;
    assert(text::is_digit(digits[0]));
    assert(s[0] == digits[0]);
    text::law_trimmed(Seq::empty(), s, Seq::empty());
    assert(Seq::<char>::empty() + s + Seq::<char>::empty() == s);
    assert forall|i: int| 0 <= i < n implies #[trigger] upper[i] == digits[i] by {
        assert(text::is_digit(digits[i]));
        assert(s[i] == digits[i]);
    }
    assert(upper[n] == text::upper_char(last));
    assert(upper.last() == upper[n]);
    assert(text::is_digit(upper[n - 1])) by {
        assert(text::is_digit(digits[n - 1]));
        assert(upper[n - 1] == digits[n - 1]);
    }
    lemma_short_suffix(upper, "GB"@);
    lemma_short_suffix(upper, "G"@);
    lemma_short_suffix(upper, "MB"@);
    lemma_short_suffix(upper, "M"@);
    lemma_short_suffix(upper, "KB"@);
    lemma_short_suffix(upper, "K"@);
    assert(upper[0] == digits[0]);
    text::law_trimmed(Seq::empty(), upper, Seq::empty());
    assert(Seq::<char>::empty() + upper + Seq::<char>::empty() == upper);
    lemma_names_of_numbers(upper);
    assert(text::unsigned_part(upper) == upper);
    assert forall|k: int| 0 <= k < n implies text::is_digit(#[trigger] upper[k]) by {
        assert(text::is_digit(digits[k]));
        assert(upper[k] == digits[k]);
    }
    text::lemma_first_where(upper, |c: char| !text::is_digit(c), n);
    let rest = upper.skip(n);
    assert(rest.len() == 1 && rest[0] == upper[n]);
    assert(rest.skip(1).len() == 0);
    assert(text::unsigned_part(rest.skip(1)).len() == 0);
}

/// A kilobyte is 1024 bytes, a megabyte 1024 kilobytes and a gigabyte 1024
/// megabytes, in upper and lower case, with and without the `B`.
pub proof fn law_units(digits: Seq<char>, unit: Seq<char>)
    requires
        text::all_digits(digits),
    ensures
        unit.len() == 0 && text::digits_value(digits) * 1 <= u64::MAX ==> size_of(digits + unit)
            == Ok::<SizeView, Seq<char>>(SizeView::Bytes(text::digits_value(digits) * 1)),
        (text::uppered(unit) == seq!['K'] || text::uppered(unit) == seq!['K', 'B']) && text::digits_value(digits) * 1024 <= u64::MAX ==> size_of(digits + unit)
            == Ok::<SizeView, Seq<char>>(SizeView::Bytes(text::digits_value(digits) * 1024)),
        (text::uppered(unit) == seq!['M'] || text::uppered(unit) == seq!['M', 'B']) && text::digits_value(digits) * (1024 * 1024) <= u64::MAX ==> size_of(digits + unit)
            == Ok::<SizeView, Seq<char>>(SizeView::Bytes(text::digits_value(digits) * (1024 * 1024))),
        (text::uppered(unit) == seq!['G'] || text::uppered(unit) == seq!['G', 'B']) && text::digits_value(digits) * (1024 * 1024 * 1024) <= u64::MAX ==> size_of(digits + unit)
            == Ok::<SizeView, Seq<char>>(SizeView::Bytes(text::digits_value(digits) * (1024 * 1024 * 1024))),
{
    let upper = text::uppered(unit);
    let n = text::digits_value(digits);
    reveal_strlit("K");
    reveal_strlit("KB");
    reveal_strlit("M");
    reveal_strlit("MB");
    reveal_strlit("G");
    reveal_strlit("GB");
    if unit.len() == 0 {
        if n * 1 <= u64::MAX {
            law_whole_size(digits, unit);
        }
    } else if upper == seq!['K'] || upper == seq!['K', 'B'] {
        assert(upper == "K"@ || upper == "KB"@);
        assert(upper[0] == 'K');
        if n * 1024 <= u64::MAX {
            law_whole_size(digits, unit);
        }
    } else if upper == seq!['M'] || upper == seq!['M', 'B'] {
        assert(upper == "M"@ || upper == "MB"@);
        assert(upper[0] == 'M');
        if n * (1024 * 1024) <= u64::MAX {
            law_whole_size(digits, unit);
        }
    } else if upper == seq!['G'] || upper == seq!['G', 'B'] {
        assert(upper == "G"@ || upper == "GB"@);
        assert(upper[0] == 'G');
        if n * (1024 * 1024 * 1024) <= u64::MAX {
            law_whole_size(digits, unit);
        }
    }
}

} // verus!

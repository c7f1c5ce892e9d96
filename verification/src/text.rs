//! Text primitives over sequences of characters.
//!
//! Strings are viewed as `Seq<char>`; every function here states its result
//! over that view.

use vstd::prelude::*;
use vstd::string::*;
use vstd::utf8::*;

verus! {

/// `String::push` appends one character to the end of the string.
pub assume_specification[ String::push ](s: &mut String, c: char)
    ensures
        final(s)@ == old(s)@.push(c),
;

/// The message of the error that `String::from_utf8` reports for bytes that are
/// not UTF-8.
pub uninterp spec fn utf8_reason(bytes: Seq<u8>) -> Seq<char>;

/// `String::from_utf8` decodes bytes that are UTF-8 and rejects any others; the
/// message of its error is a function of the bytes.
#[verifier::external_body]
pub(crate) fn from_utf8(bytes: Vec<u8>) -> (r: Result<String, String>)
    ensures
        match r {
            Ok(s) => valid_utf8(bytes@) && s@ == decode_utf8(bytes@),
            Err(e) => !valid_utf8(bytes@) && e@ == utf8_reason(bytes@),
        },
{
    String::from_utf8(bytes).map_err(|e| e.to_string())
}

/// The characters with the Unicode `White_Space` property.
pub open spec fn is_space(c: char) -> bool {
    ||| 0x09 <= c as u32 <= 0x0d
    ||| c as u32 == 0x20
    ||| c as u32 == 0x85
    ||| c as u32 == 0xa0
    ||| c as u32 == 0x1680
    ||| 0x2000 <= c as u32 <= 0x200a
    ||| c as u32 == 0x2028
    ||| c as u32 == 0x2029
    ||| c as u32 == 0x202f
    ||| c as u32 == 0x205f
    ||| c as u32 == 0x3000
}

/// Whether `c` is a whitespace character.
pub fn space(c: char) -> (r: bool)
    ensures
        r == is_space(c),
        r <==> c == '\t' || c == '\n' || c as u32 == 0x0b || c as u32 == 0x0c || c == '\r' || c
            == ' ' || c as u32 == 0x85 || c as u32 == 0xa0 || c as u32 == 0x1680 || 0x2000 <= c as u32
            <= 0x200a || c as u32 == 0x2028 || c as u32 == 0x2029 || c as u32 == 0x202f || c as u32
            == 0x205f || c as u32 == 0x3000,
{
    let n: u32 = c as u32;
    (0x09 <= n && n <= 0x0d) || n == 0x20 || n == 0x85 || n == 0xa0 || n == 0x1680 || (0x2000 <= n
        && n <= 0x200a) || n == 0x2028 || n == 0x2029 || n == 0x202f || n == 0x205f || n == 0x3000
}

/// The characters of `s`, in order.
pub fn chars_of(s: &str) -> (v: Vec<char>)
    ensures
        v@ == s@,
{
    let mut v: Vec<char> = Vec::new();
    for c in it: s.chars()
        invariant
            it.seq() == s@,
            v@ == s@.take(it.index()),
    {
        proof {
            assert(s@.take(it.index() + 1) == s@.take(it.index()).push(s@[it.index()]));
        }
        v.push(c);
    }
    proof {
        assert(s@.take(s@.len() as int) == s@);
    }
    v
}

/// The string made of `chars[from..to]`.
pub fn slice_text(chars: &Vec<char>, from: usize, to: usize) -> (s: String)
    requires
        from <= to <= chars@.len(),
    ensures
        s@ == chars@.subrange(from as int, to as int),
{
    let mut s = String::new();
    let mut i: usize = from;
    while i < to
        invariant
            from <= i <= to <= chars@.len(),
            s@ == chars@.subrange(from as int, i as int),
        decreases to - i,
    {
        s.push(chars[i]);
        proof {
            assert(chars@.subrange(from as int, i + 1) == chars@.subrange(from as int, i as int).push(
                chars@[i as int],
            ));
        }
        i = i + 1;
    }
    s
}

/// Whether two strings hold the same characters.
pub fn same(a: &str, b: &str) -> (r: bool)
    ensures
        r == (a@ == b@),
{
    let x = a.as_bytes();
    let y = b.as_bytes();
    proof {
        encode_utf8_decode_utf8(a@);
        encode_utf8_decode_utf8(b@);
    }
    if x.len() != y.len() {
        return false;
    }
    let mut i: usize = 0;
    while i < x.len()
        invariant
            i <= x@.len(),
            x@.len() == y@.len(),
            x@ == encode_utf8(a@),
            y@ == encode_utf8(b@),
            forall|j: int| 0 <= j < i ==> x@[j] == y@[j],
        decreases x@.len() - i,
    {
        if x[i] != y[i] {
            return false;
        }
        i = i + 1;
    }
    proof {
        assert(x@ == y@);
    }
    true
}

/// `s` without its trailing whitespace.
pub open spec fn trimmed_end(s: Seq<char>) -> Seq<char>
    decreases s.len(),
{
    if s.len() > 0 && is_space(s.last()) {
        trimmed_end(s.drop_last())
    } else {
        s
    }
}

/// `s` without its leading whitespace.
pub open spec fn trimmed_start(s: Seq<char>) -> Seq<char>
    decreases s.len(),
{
    if s.len() > 0 && is_space(s[0]) {
        trimmed_start(s.drop_first())
    } else {
        s
    }
}

/// `s` without its leading and trailing whitespace.
pub open spec fn trimmed(s: Seq<char>) -> Seq<char> {
    trimmed_start(trimmed_end(s))
}

/// Removes trailing whitespace.
pub fn trim_end(s: &str) -> (r: String)
    ensures
        r@ == trimmed_end(s@),
{
    let chars = chars_of(s);
    let mut n: usize = chars.len();
    proof {
        assert(s@.take(n as int) == s@);
    }
    while n > 0 && space(chars[n - 1])
        invariant
            n <= chars@.len(),
            chars@ == s@,
            trimmed_end(s@) == trimmed_end(s@.take(n as int)),
        decreases n,
    {
        proof {
            assert(s@.take(n as int).last() == s@[n - 1]);
            assert(s@.take(n as int).drop_last() == s@.take(n - 1));
        }
        n = n - 1;
    }
    proof {
        if n > 0 {
            assert(s@.take(n as int).last() == s@[n - 1]);
        }
        assert(s@.take(n as int) == chars@.subrange(0, n as int));
    }
    slice_text(&chars, 0, n)
}

/// Removes leading whitespace.
pub fn trim_start(s: &str) -> (r: String)
    ensures
        r@ == trimmed_start(s@),
{
    let chars = chars_of(s);
    let mut n: usize = 0;
    proof {
        assert(s@.skip(0) == s@);
    }
    while n < chars.len() && space(chars[n])
        invariant
            n <= chars@.len(),
            chars@ == s@,
            trimmed_start(s@) == trimmed_start(s@.skip(n as int)),
        decreases chars@.len() - n,
    {
        proof {
            assert(s@.skip(n as int)[0] == s@[n as int]);
            assert(s@.skip(n as int).drop_first() == s@.skip(n + 1));
        }
        n = n + 1;
    }
    proof {
        if n < s@.len() {
            assert(s@.skip(n as int)[0] == s@[n as int]);
        }
        assert(s@.skip(n as int) == chars@.subrange(n as int, chars@.len() as int));
    }
    slice_text(&chars, n, chars.len())
}

/// Removes leading and trailing whitespace.
pub fn trim(s: &str) -> (r: String)
    ensures
        r@ == trimmed(s@),
{
    let t = trim_end(s);
    trim_start(t.as_str())
}

/// The lower-case form of an ASCII letter; any other character is itself.
pub open spec fn lower_char(c: char) -> char {
    if 'A' <= c && c <= 'Z' {
        ((c as u8) + 32) as char
    } else {
        c
    }
}

/// The upper-case form of an ASCII letter; any other character is itself.
pub open spec fn upper_char(c: char) -> char {
    if 'a' <= c && c <= 'z' {
        ((c as u8) - 32) as char
    } else {
        c
    }
}

/// `s` with its ASCII letters in lower case.
pub open spec fn lowered(s: Seq<char>) -> Seq<char> {
    s.map_values(|c: char| lower_char(c))
}

/// `s` with its ASCII letters in upper case.
pub open spec fn uppered(s: Seq<char>) -> Seq<char> {
    s.map_values(|c: char| upper_char(c))
}

/// Lower-cases the ASCII letters of `s`.
pub fn to_lower(s: &str) -> (r: String)
    ensures
        r@ == lowered(s@),
{
    let mut r = String::new();
    for c in it: s.chars()
        invariant
            it.seq() == s@,
            r@ == lowered(s@.take(it.index())),
    {
        proof {
            assert(s@.take(it.index() + 1) == s@.take(it.index()).push(s@[it.index()]));
            assert(lowered(s@.take(it.index() + 1)) == lowered(s@.take(it.index())).push(
                lower_char(s@[it.index()]),
            ));
        }
        if 'A' <= c && c <= 'Z' {
            r.push(((c as u8) + 32) as char);
        } else {
            r.push(c);
        }
    }
    proof {
        assert(s@.take(s@.len() as int) == s@);
    }
    r
}

/// Upper-cases the ASCII letters of `s`.
pub fn to_upper(s: &str) -> (r: String)
    ensures
        r@ == uppered(s@),
{
    let mut r = String::new();
    for c in it: s.chars()
        invariant
            it.seq() == s@,
            r@ == uppered(s@.take(it.index())),
    {
        proof {
            assert(s@.take(it.index() + 1) == s@.take(it.index()).push(s@[it.index()]));
            assert(uppered(s@.take(it.index() + 1)) == uppered(s@.take(it.index())).push(
                upper_char(s@[it.index()]),
            ));
        }
        if 'a' <= c && c <= 'z' {
            r.push(((c as u8) - 32) as char);
        } else {
            r.push(c);
        }
    }
    proof {
        assert(s@.take(s@.len() as int) == s@);
    }
    r
}

/// What follows `prefix` in `s`, if `s` begins with it.
pub open spec fn after_prefix(s: Seq<char>, prefix: Seq<char>) -> Option<Seq<char>> {
    if prefix.is_prefix_of(s) {
        Some(s.skip(prefix.len() as int))
    } else {
        None
    }
}

/// What precedes `suffix` in `s`, if `s` ends with it.
pub open spec fn before_suffix(s: Seq<char>, suffix: Seq<char>) -> Option<Seq<char>> {
    if suffix.is_suffix_of(s) {
        Some(s.take(s.len() - suffix.len()))
    } else {
        None
    }
}

/// The view of an optional string.
pub open spec fn opt_text(o: Option<String>) -> Option<Seq<char>> {
    match o {
        Some(s) => Some(s@),
        None => None,
    }
}

/// Copies an optional text.
pub fn copy_opt(o: &Option<String>) -> (r: Option<String>)
    ensures
        opt_text(r) == opt_text(*o),
{
    match o {
        Some(s) => Some(s.clone()),
        None => None,
    }
}

/// Removes `prefix` from the front of `s`, if it is there.
pub fn strip_prefix(s: &str, prefix: &str) -> (r: Option<String>)
    ensures
        opt_text(r) == after_prefix(s@, prefix@),
{
    let x = chars_of(s);
    let p = chars_of(prefix);
    if p.len() > x.len() {
        return None;
    }
    let mut i: usize = 0;
    while i < p.len()
        invariant
            i <= p@.len() <= x@.len(),
            x@ == s@,
            p@ == prefix@,
            forall|j: int| 0 <= j < i ==> p@[j] == x@[j],
        decreases p@.len() - i,
    {
        if p[i] != x[i] {
            proof {
                assert(s@.take(prefix@.len() as int)[i as int] != prefix@[i as int]);
            }
            return None;
        }
        i = i + 1;
    }
    proof {
        assert(prefix@ == s@.take(prefix@.len() as int));
        assert(s@.skip(prefix@.len() as int) == x@.subrange(p@.len() as int, x@.len() as int));
    }
    Some(slice_text(&x, p.len(), x.len()))
}

/// Removes `suffix` from the end of `s`, if it is there.
pub fn strip_suffix(s: &str, suffix: &str) -> (r: Option<String>)
    ensures
        opt_text(r) == before_suffix(s@, suffix@),
{
    let x = chars_of(s);
    let p = chars_of(suffix);
    if p.len() > x.len() {
        return None;
    }
    let total: usize = x.len();
    let start: usize = total - p.len();
    let mut i: usize = 0;
    while i < p.len()
        invariant
            i <= p@.len() <= x@.len(),
            total == x@.len(),
            start == x@.len() - p@.len(),
            x@ == s@,
            p@ == suffix@,
            forall|j: int| 0 <= j < i ==> p@[j] == x@[start + j],
        decreases p@.len() - i,
    {
        if p[i] != x[start + i] {
            proof {
                assert(s@.subrange(start as int, s@.len() as int)[i as int] != suffix@[i as int]);
            }
            return None;
        }
        i = i + 1;
    }
    proof {
        assert(suffix@ == s@.subrange(start as int, s@.len() as int));
        assert(s@.take(s@.len() - suffix@.len()) == x@.subrange(0, start as int));
    }
    Some(slice_text(&x, 0, start))
}

/// Whether `s` begins with `prefix`.
pub fn starts_with(s: &str, prefix: &str) -> (r: bool)
    ensures
        r == prefix@.is_prefix_of(s@),
{
    strip_prefix(s, prefix).is_some()
}

/// `needle` occurs in `s` at position `i`.
pub open spec fn occurs_at(s: Seq<char>, needle: Seq<char>, i: int) -> bool {
    0 <= i && i + needle.len() <= s.len() && s.subrange(i, i + needle.len()) == needle
}

/// `needle` occurs somewhere in `s`.
pub open spec fn holds_text(s: Seq<char>, needle: Seq<char>) -> bool {
    exists|i: int| occurs_at(s, needle, i)
}

/// Whether `needle` occurs in `s`.
pub fn contains_text(s: &str, needle: &str) -> (r: bool)
    ensures
        r == holds_text(s@, needle@),
{
    let x = chars_of(s);
    let p = chars_of(needle);
    if p.len() > x.len() {
        return false;
    }
    let total: usize = x.len();
    let last: usize = total - p.len();
    let mut i: usize = 0;
    while i <= last
        invariant
            i <= last + 1,
            last == x@.len() - p@.len(),
            x@ == s@,
            p@ == needle@,
            p@.len() <= x@.len(),
            total == x@.len(),
            forall|k: int| 0 <= k < i ==> !occurs_at(s@, needle@, k),
        decreases last + 1 - i,
    {
        let mut j: usize = 0;
        while j < p.len() && p[j] == x[i + j]
            invariant
                j <= p@.len(),
                i <= last,
                total == x@.len(),
                last == x@.len() - p@.len(),
                x@ == s@,
                p@ == needle@,
                p@.len() <= x@.len(),
                forall|k: int| 0 <= k < j ==> p@[k] == x@[i + k],
            decreases p@.len() - j,
        {
            j = j + 1;
        }
        if j == p.len() {
            proof {
                assert(s@.subrange(i as int, i + needle@.len()) == needle@);
                assert(occurs_at(s@, needle@, i as int));
            }
            return true;
        }
        proof {
            assert(s@.subrange(i as int, i + needle@.len())[j as int] != needle@[j as int]);
            assert(!occurs_at(s@, needle@, i as int));
        }
        if i == last {
            return false;
        }
        i = i + 1;
    }
    false
}

/// The position of the first character of `s` that `stop` accepts, or the
/// length of `s`.
pub open spec fn first_where(s: Seq<char>, stop: spec_fn(char) -> bool) -> int
    decreases s.len(),
{
    if s.len() == 0 || stop(s[0]) {
        0
    } else {
        1 + first_where(s.drop_first(), stop)
    }
}

/// The position that [`first_where`] gives is the first at which `stop` holds.
pub proof fn lemma_first_where(s: Seq<char>, stop: spec_fn(char) -> bool, n: int)
    requires
        0 <= n <= s.len(),
        forall|k: int| 0 <= k < n ==> !stop(s[k]),
        n < s.len() ==> stop(s[n]),
    ensures
        first_where(s, stop) == n,
    decreases s.len(),
{
    if s.len() > 0 && !stop(s[0]) {
        assert(n > 0);
        assert forall|k: int| 0 <= k < n - 1 implies !stop(s.drop_first()[k]) by {
            assert(s.drop_first()[k] == s[k + 1]);
        }
        lemma_first_where(s.drop_first(), stop, n - 1);
    } else if s.len() > 0 {
        assert(n == 0);
    }
}

/// Before the position that [`first_where`] gives `stop` does not hold, and
/// there it does.
pub proof fn lemma_first_where_is(s: Seq<char>, stop: spec_fn(char) -> bool)
    ensures
        0 <= first_where(s, stop) <= s.len(),
        forall|k: int| 0 <= k < first_where(s, stop) ==> !stop(#[trigger] s[k]),
        first_where(s, stop) < s.len() ==> stop(s[first_where(s, stop)]),
    decreases s.len(),
{
    if s.len() > 0 && !stop(s[0]) {
        let rest = s.drop_first();
        lemma_first_where_is(rest, stop);
        assert forall|k: int| 0 <= k < first_where(s, stop) implies !stop(#[trigger] s[k]) by {
            if k > 0 {
                assert(s[k] == rest[k - 1]);
            }
        }
    }
}

/// The position of the first `c` in `chars` at or after `from`, or the number
/// of characters.
pub fn find_char(chars: &Vec<char>, c: char, from: usize) -> (n: usize)
    requires
        from <= chars@.len(),
    ensures
        from <= n <= chars@.len(),
        forall|k: int| from <= k < n ==> chars@[k] != c,
        n < chars@.len() ==> chars@[n as int] == c,
{
    let mut i: usize = from;
    while i < chars.len() && chars[i] != c
        invariant
            from <= i <= chars@.len(),
            forall|k: int| from <= k < i ==> chars@[k] != c,
        decreases chars@.len() - i,
    {
        i = i + 1;
    }
    i
}

/// The decimal digit for `d`.
pub open spec fn digit_char(d: nat) -> char {
    (48 + d) as char
}

/// The decimal numeral of `n`, without leading zeros.
pub open spec fn decimal(n: nat) -> Seq<char>
    decreases n,
{
    if n < 10 {
        seq![digit_char(n)]
    } else {
        decimal(n / 10).push(digit_char(n % 10))
    }
}

/// Writes `n` in decimal.
pub fn to_decimal(n: u64) -> (s: String)
    ensures
        s@ == decimal(n as nat),
{
    to_long_decimal(n as u128)
}

/// Writes `n` in decimal.
pub fn to_long_decimal(n: u128) -> (s: String)
    ensures
        s@ == decimal(n as nat),
    decreases n,
{
    if n < 10 {
        let mut s = String::new();
        s.push((48 + n as u8) as char);
        proof {
            assert(s@ == seq![digit_char(n as nat)]);
        }
        s
    } else {
        let mut s = to_long_decimal(n / 10);
        s.push((48 + (n % 10) as u8) as char);
        s
    }
}

/// Whether `c` is one of `0` to `9`.
pub open spec fn is_digit(c: char) -> bool {
    '0' <= c && c <= '9'
}

/// `s` is a non-empty run of digits.
pub open spec fn all_digits(s: Seq<char>) -> bool {
    s.len() > 0 && forall|i: int| 0 <= i < s.len() ==> is_digit(#[trigger] s[i])
}

/// The number that a run of digits stands for.
pub open spec fn digits_value(s: Seq<char>) -> int
    decreases s.len(),
{
    if s.len() == 0 {
        0
    } else {
        digits_value(s.drop_last()) * 10 + (s.last() as int - 48)
    }
}

/// `s` without one leading sign.
pub open spec fn unsigned_part(s: Seq<char>) -> Seq<char> {
    if s.len() > 0 && (s[0] == '-' || s[0] == '+') {
        s.drop_first()
    } else {
        s
    }
}

/// The number that `s` stands for: an optional sign and decimal digits.
pub open spec fn integer_value(s: Seq<char>) -> Option<int> {
    if !all_digits(unsigned_part(s)) {
        None
    } else if s[0] == '-' {
        Some(-digits_value(unsigned_part(s)))
    } else {
        Some(digits_value(unsigned_part(s)))
    }
}

/// The 32-bit integer that `s` stands for, if it is one.
pub open spec fn i32_value(s: Seq<char>) -> Option<i32> {
    match integer_value(s) {
        Some(v) => if i32::MIN <= v <= i32::MAX {
            Some(v as i32)
        } else {
            None
        },
        None => None,
    }
}

/// Parses a signed 32-bit decimal integer.
pub fn parse_i32(s: &str) -> (r: Option<i32>)
    ensures
        r == i32_value(s@),
{
    let chars = chars_of(s);
    if chars.len() == 0 {
        return None;
    }
    let negative: bool = chars[0] == '-';
    let start: usize = if negative || chars[0] == '+' {
        1
    } else {
        0
    };
    let ghost body = unsigned_part(s@);
    proof {
        assert(body == s@.skip(start as int));
        assert(body.take(0) == Seq::<char>::empty());
    }
    if start == chars.len() {
        return None;
    }
    let mut value: i64 = 0;
    let mut over: bool = false;
    let mut i: usize = start;
    while i < chars.len()
        invariant
            start <= i <= chars@.len(),
            start < chars@.len(),
            chars@ == s@,
            body == s@.skip(start as int),
            body == unsigned_part(s@),
            forall|k: int| 0 <= k < i - start ==> is_digit(#[trigger] body[k]),
            0 <= value <= 0x8000_0000,
            over ==> digits_value(body.take(i - start)) > 0x8000_0000,
            !over ==> digits_value(body.take(i - start)) == value,
        decreases chars@.len() - i,
    {
        let c = chars[i];
        proof {
            assert(body[i - start] == s@[i as int]);
        }
        if !('0' <= c && c <= '9') {
            proof {
                assert(!all_digits(body));
            }
            return None;
        }
        proof {
            let t = body.take(i + 1 - start);
            assert(t.drop_last() == body.take(i - start));
            assert(t.last() == c);
        }
        if !over {
            let next: i64 = value * 10 + (c as u32 as i64 - 48);
            if next > 0x8000_0000 {
                over = true;
            } else {
                value = next;
            }
        }
        i = i + 1;
    }
    proof {
        assert(body.take(body.len() as int) == body);
        assert(all_digits(body));
    }
    if over {
        None
    } else if negative {
        Some((-value) as i32)
    } else if value <= 0x7fff_ffff {
        Some(value as i32)
    } else {
        None
    }
}

/// The number of digits that `s` begins with.
pub open spec fn digit_run(s: Seq<char>) -> int {
    first_where(s, |c: char| !is_digit(c))
}

/// The end of the run of digits in `chars` that begins at `from`.
pub fn digits_end(chars: &Vec<char>, from: usize) -> (n: usize)
    requires
        from <= chars@.len(),
    ensures
        from <= n <= chars@.len(),
        n - from == digit_run(chars@.skip(from as int)),
        forall|k: int| from <= k < n ==> is_digit(#[trigger] chars@[k]),
        n < chars@.len() ==> !is_digit(chars@[n as int]),
{
    let mut n: usize = from;
    while n < chars.len() && '0' <= chars[n] && chars[n] <= '9'
        invariant
            from <= n <= chars@.len(),
            forall|k: int| from <= k < n ==> is_digit(#[trigger] chars@[k]),
        decreases chars@.len() - n,
    {
        n = n + 1;
    }
    proof {
        let rest = chars@.skip(from as int);
        assert forall|k: int| 0 <= k < n - from implies is_digit(#[trigger] rest[k]) by {
            assert(rest[k] == chars@[from + k]);
        }
        if n < chars@.len() {
            assert(rest[n - from] == chars@[n as int]);
        }
        lemma_first_where(rest, |c: char| !is_digit(c), n - from);
    }
    n
}

/// The number that a run of digits stands for, continuing from `before`, if
/// the whole is at most `cap`.
pub fn digits_up_to(
    chars: &Vec<char>,
    from: usize,
    to: usize,
    before: u64,
    cap: u64,
) -> (r: Option<u64>)
    requires
        from <= to <= chars@.len(),
        before <= cap,
        forall|k: int| from <= k < to ==> is_digit(#[trigger] chars@[k]),
    ensures
        match r {
            Some(v) => v <= cap && v == continued_value(
                before as int,
                chars@.subrange(from as int, to as int),
            ),
            None => continued_value(before as int, chars@.subrange(from as int, to as int)) > cap,
        },
{
    let ghost run = chars@.subrange(from as int, to as int);
    let mut value: u64 = before;
    let mut over: bool = false;
    let mut i: usize = from;
    proof {
        assert(run.take(0) == Seq::<char>::empty());
    }
    while i < to
        invariant
            from <= i <= to <= chars@.len(),
            run == chars@.subrange(from as int, to as int),
            forall|k: int| from <= k < to ==> is_digit(#[trigger] chars@[k]),
            value <= cap,
            over ==> continued_value(before as int, run.take(i - from)) > cap,
            !over ==> continued_value(before as int, run.take(i - from)) == value,
        decreases to - i,
    {
        let c = chars[i];
        proof {
            let t = run.take(i + 1 - from);
            assert(t.drop_last() == run.take(i - from));
            assert(t.last() == c);
        }
        if !over {
            let next: u128 = value as u128 * 10 + (c as u32 as u128 - 48);
            if next > cap as u128 {
                over = true;
            } else {
                value = next as u64;
            }
        }
        i = i + 1;
    }
    proof {
        assert(run.take(run.len() as int) == run);
    }
    if over {
        None
    } else {
        Some(value)
    }
}

/// The number that the digits `s` give when they are written after those of
/// the number `before`.
pub open spec fn continued_value(before: int, s: Seq<char>) -> int
    decreases s.len(),
{
    if s.len() == 0 {
        before
    } else {
        continued_value(before, s.drop_last()) * 10 + (s.last() as int - 48)
    }
}

/// Digits written after other digits continue their number.
pub proof fn lemma_continued_value(a: Seq<char>, b: Seq<char>)
    ensures
        continued_value(digits_value(a), b) == digits_value(a + b),
    decreases b.len(),
{
    if b.len() == 0 {
        assert(a + b == a);
    } else {
        lemma_continued_value(a, b.drop_last());
        assert((a + b).drop_last() == a + b.drop_last());
    }
}

/// The unsigned 32-bit integer that `s` stands for, if it is one: decimal
/// digits after an optional plus sign.
pub open spec fn u32_value(s: Seq<char>) -> Option<u32> {
    let digits = if s.len() > 0 && s[0] == '+' {
        s.drop_first()
    } else {
        s
    };
    if all_digits(digits) && digits_value(digits) <= u32::MAX {
        Some(digits_value(digits) as u32)
    } else {
        None
    }
}

/// Parses an unsigned 32-bit decimal integer.
pub fn parse_u32(s: &str) -> (r: Option<u32>)
    ensures
        r == u32_value(s@),
{
    let chars = chars_of(s);
    let start: usize = if chars.len() > 0 && chars[0] == '+' {
        1
    } else {
        0
    };
    let ghost digits = s@.skip(start as int);
    proof {
        assert(digits == (if s@.len() > 0 && s@[0] == '+' {
            s@.drop_first()
        } else {
            s@
        }));
    }
    let end = digits_end(&chars, start);
    if end == start || end < chars.len() {
        proof {
            if end < chars.len() {
                assert(digits[end - start] == chars@[end as int]);
            }
        }
        return None;
    }
    proof {
        assert forall|k: int| 0 <= k < digits.len() implies is_digit(#[trigger] digits[k]) by {
            assert(digits[k] == chars@[start + k]);
        }
        assert(chars@.subrange(start as int, end as int) == digits);
        lemma_continued_value(Seq::empty(), digits);
        assert(Seq::<char>::empty() + digits == digits);
    }
    match digits_up_to(&chars, start, end, 0, 0xffff_ffff) {
        Some(v) => Some(v as u32),
        None => None,
    }
}

/// `a` comes strictly before `b` in the order of their characters.
pub open spec fn text_before(a: Seq<char>, b: Seq<char>) -> bool
    decreases a.len(),
{
    if b.len() == 0 {
        false
    } else if a.len() == 0 {
        true
    } else if a[0] != b[0] {
        a[0] < b[0]
    } else {
        text_before(a.drop_first(), b.drop_first())
    }
}

/// The order of texts is transitive.
pub proof fn lemma_before_transitive(a: Seq<char>, b: Seq<char>, c: Seq<char>)
    requires
        text_before(a, b),
        text_before(b, c),
    ensures
        text_before(a, c),
    decreases a.len(),
{
    if a.len() > 0 && a[0] == b[0] && b[0] == c[0] {
        lemma_before_transitive(a.drop_first(), b.drop_first(), c.drop_first());
    }
}

/// Two texts of which neither comes before the other are the same.
pub proof fn lemma_before_total(a: Seq<char>, b: Seq<char>)
    ensures
        text_before(a, b) || text_before(b, a) || a == b,
        !(text_before(a, b) && text_before(b, a)),
        a == b ==> !text_before(a, b),
    decreases a.len(),
{
    if a.len() > 0 && b.len() > 0 && a[0] == b[0] {
        lemma_before_total(a.drop_first(), b.drop_first());
        if a.drop_first() == b.drop_first() {
            assert(a == seq![a[0]] + a.drop_first());
            assert(b == seq![b[0]] + b.drop_first());
        }
    } else if a.len() == 0 && b.len() == 0 {
        assert(a == b);
    }
}

/// Whether `a` comes strictly before `b`.
pub fn before(a: &str, b: &str) -> (r: bool)
    ensures
        r == text_before(a@, b@),
{
    let x = chars_of(a);
    let y = chars_of(b);
    let mut i: usize = 0;
    proof {
        assert(a@.skip(0) == a@);
        assert(b@.skip(0) == b@);
    }
    while i < x.len() && i < y.len() && x[i] == y[i]
        invariant
            i <= x@.len(),
            i <= y@.len(),
            x@ == a@,
            y@ == b@,
            text_before(a@, b@) == text_before(a@.skip(i as int), b@.skip(i as int)),
        decreases x@.len() - i,
    {
        proof {
            assert(a@.skip(i as int)[0] == a@[i as int]);
            assert(b@.skip(i as int)[0] == b@[i as int]);
            assert(a@.skip(i as int).drop_first() == a@.skip(i + 1));
            assert(b@.skip(i as int).drop_first() == b@.skip(i + 1));
        }
        i = i + 1;
    }
    if i == y.len() {
        return false;
    }
    if i == x.len() {
        return true;
    }
    proof {
        assert(a@.skip(i as int)[0] == a@[i as int]);
        assert(b@.skip(i as int)[0] == b@[i as int]);
    }
    x[i] < y[i]
}

/// The views of a list of strings.
pub open spec fn texts(v: Seq<String>) -> Seq<Seq<char>> {
    v.map_values(|s: String| s@)
}

/// The texts of `list` with `separator` between neighbours.
pub open spec fn joined(list: Seq<Seq<char>>, separator: Seq<char>) -> Seq<char>
    decreases list.len(),
{
    if list.len() == 0 {
        Seq::empty()
    } else if list.len() == 1 {
        list[0]
    } else {
        joined(list.drop_last(), separator) + separator + list.last()
    }
}

/// Joining one more text.
pub proof fn lemma_joined_push(list: Seq<Seq<char>>, text: Seq<char>, separator: Seq<char>)
    ensures
        joined(list.push(text), separator) == (if list.len() == 0 {
            joined(list, separator) + text
        } else {
            joined(list, separator) + separator + text
        }),
{
    let more = list.push(text);
    if list.len() == 0 {
        assert(joined(list, separator) + text == text);
    } else {
        assert(more.drop_last() == list);
    }
}

/// Joins `list` with `separator` between neighbours.
pub fn join(list: &Vec<String>, separator: &str) -> (r: String)
    ensures
        r@ == joined(texts(list@), separator@),
{
    let mut r = String::new();
    let mut i: usize = 0;
    while i < list.len()
        invariant
            i <= list@.len(),
            r@ == joined(texts(list@).take(i as int), separator@),
        decreases list@.len() - i,
    {
        if i > 0 {
            r.append(separator);
        }
        r.append(list[i].as_str());
        proof {
            let t = texts(list@).take(i + 1);
            assert(t.drop_last() == texts(list@).take(i as int));
            assert(t.last() == list@[i as int]@);
            if i == 0 {
                assert(r@ == list@[0]@);
            }
        }
        i = i + 1;
    }
    proof {
        assert(texts(list@).take(list@.len() as int) == texts(list@));
    }
    r
}

/// Whether `list` holds `name`.
pub fn list_has(list: &Vec<String>, name: &str) -> (r: bool)
    ensures
        r == texts(list@).contains(name@),
{
    let mut i: usize = 0;
    while i < list.len()
        invariant
            i <= list@.len(),
            forall|k: int| 0 <= k < i ==> texts(list@)[k] != name@,
        decreases list@.len() - i,
    {
        if same(list[i].as_str(), name) {
            proof {
                assert(texts(list@)[i as int] == name@);
            }
            return true;
        }
        i = i + 1;
    }
    false
}

/// What a list holds once one more text is in it.
pub proof fn lemma_contains_push(list: Seq<Seq<char>>, text: Seq<char>)
    ensures
        forall|n: Seq<char>| #[trigger]
            list.push(text).contains(n) == (list.contains(n) || n == text),
{
    assert forall|n: Seq<char>| #[trigger] list.push(text).contains(n) == (list.contains(n) || n
        == text) by {
        if list.contains(n) {
            let k = choose|k: int| 0 <= k < list.len() && list[k] == n;
            assert(list.push(text)[k] == n);
        }
        if n == text {
            assert(list.push(text)[list.len() as int] == n);
        }
        if list.push(text).contains(n) && n != text {
            let k = choose|k: int| 0 <= k < list.push(text).len() && list.push(text)[k] == n;
            assert(list[k] == n);
        }
    }
}

/// What is left after a prefix makes up the text together with it, and there is
/// something left wherever the text begins with the prefix.
pub proof fn law_after_prefix(s: Seq<char>, prefix: Seq<char>)
    ensures
        after_prefix(s, prefix) matches Some(rest) ==> s == prefix + rest,
        forall|rest: Seq<char>| s == #[trigger] (prefix + rest) ==> after_prefix(s, prefix) == Some(
            rest,
        ),
{
    if let Some(rest) = after_prefix(s, prefix) {
        assert(s == prefix + rest);
    }
    assert forall|rest: Seq<char>| s == #[trigger] (prefix + rest) implies after_prefix(s, prefix)
        == Some(rest) by {
        assert(s.take(prefix.len() as int) == prefix);
        assert(s.skip(prefix.len() as int) == rest);
    }
}

/// What is left before a suffix makes up the text together with it, and there is
/// something left wherever the text ends with the suffix.
pub proof fn law_before_suffix(s: Seq<char>, suffix: Seq<char>)
    ensures
        before_suffix(s, suffix) matches Some(rest) ==> s == rest + suffix,
        forall|rest: Seq<char>| s == #[trigger] (rest + suffix) ==> before_suffix(s, suffix)
            == Some(rest),
{
    if let Some(rest) = before_suffix(s, suffix) {
        assert(s == rest + suffix);
    }
    assert forall|rest: Seq<char>| s == #[trigger] (rest + suffix) implies before_suffix(s, suffix)
        == Some(rest) by {
        let n = s.len() - suffix.len();
        assert(s.skip(n) == suffix);
        assert(s.take(n) == rest);
    }
}

/// Trimming takes off the white space around a text and nothing of the text.
pub proof fn law_trimmed(before: Seq<char>, text: Seq<char>, after: Seq<char>)
    requires
        forall|i: int| 0 <= i < before.len() ==> is_space(#[trigger] before[i]),
        forall|i: int| 0 <= i < after.len() ==> is_space(#[trigger] after[i]),
        text.len() > 0 ==> !is_space(text[0]) && !is_space(text.last()),
    ensures
        trimmed(before + text + after) == text,
        text.len() > 0 ==> trimmed_end(before + text + after) == before + text,
        text.len() > 0 ==> trimmed_start(text + after) == text + after,
{
    if text.len() > 0 {
        lemma_trimmed_end(before + text, after);
        lemma_trimmed_start(before, text);
        lemma_trimmed_start(Seq::empty(), text + after);
        assert(Seq::<char>::empty() + (text + after) == text + after);
    } else {
        let all = before + text + after;
        assert(all == Seq::<char>::empty() + all);
        assert forall|i: int| 0 <= i < all.len() implies is_space(#[trigger] all[i]) by {
            if i < before.len() {
                assert(all[i] == before[i]);
            } else {
                assert(all[i] == after[i - before.len()]);
            }
        }
        lemma_trimmed_end(Seq::empty(), all);
    }
}

/// Trailing white space is taken off.
proof fn lemma_trimmed_end(text: Seq<char>, after: Seq<char>)
    requires
        forall|i: int| 0 <= i < after.len() ==> is_space(#[trigger] after[i]),
        text.len() > 0 ==> !is_space(text.last()),
    ensures
        trimmed_end(text + after) == text,
    decreases after.len(),
{
    if after.len() > 0 {
        assert((text + after).last() == after[after.len() - 1]);
        assert((text + after).drop_last() == text + after.drop_last());
        lemma_trimmed_end(text, after.drop_last());
    } else {
        assert(text + after == text);
    }
}

/// Leading white space is taken off.
proof fn lemma_trimmed_start(before: Seq<char>, text: Seq<char>)
    requires
        forall|i: int| 0 <= i < before.len() ==> is_space(#[trigger] before[i]),
        text.len() > 0 ==> !is_space(text[0]),
    ensures
        trimmed_start(before + text) == text,
    decreases before.len(),
{
    if before.len() > 0 {
        assert((before + text)[0] == before[0]);
        assert((before + text).drop_first() == before.drop_first() + text);
        lemma_trimmed_start(before.drop_first(), text);
    } else {
        assert(before + text == text);
    }
}

/// Changing the case replaces each ASCII letter by the other form of the same
/// letter, 32 places away, and keeps every other character.
pub proof fn law_case(s: Seq<char>, i: int)
    requires
        0 <= i < s.len(),
    ensures
        lowered(s).len() == s.len(),
        uppered(s).len() == s.len(),
        'A' <= s[i] <= 'Z' ==> lowered(s)[i] as u32 == s[i] as u32 + 32,
        !('A' <= s[i] <= 'Z') ==> lowered(s)[i] == s[i],
        'a' <= s[i] <= 'z' ==> uppered(s)[i] as u32 == s[i] as u32 - 32,
        !('a' <= s[i] <= 'z') ==> uppered(s)[i] == s[i],
{
}

/// A decimal numeral is made of digits that stand for the number, and begins with
/// a zero only where it is zero.
pub proof fn law_decimal(n: nat)
    ensures
        all_digits(decimal(n)),
        digits_value(decimal(n)) == n,
        decimal(n)[0] == '0' <==> n == 0,
        decimal(n).len() == 1 <==> n < 10,
    decreases n,
{
    if n >= 10 {
        law_decimal(n / 10);
        let d = decimal(n / 10);
        let last = digit_char(n % 10);
        assert(decimal(n) == d.push(last));
        assert(decimal(n).drop_last() == d);
        assert(decimal(n).last() == last);
        assert(last as int == 48 + n % 10);
    } else {
        assert(decimal(n) == seq![digit_char(n)]);
        assert(digit_char(n) as int == 48 + n);
        assert(decimal(n).drop_last() == Seq::<char>::empty());
        assert(digits_value(Seq::<char>::empty()) == 0);
    }
}

/// A digit more makes ten times the number and the digit.
pub proof fn law_digits_value(s: Seq<char>, d: char)
    ensures
        digits_value(s.push(d)) == 10 * digits_value(s) + (d as int - '0' as int),
        digits_value(Seq::empty()) == 0,
{
    assert(s.push(d).drop_last() == s);
}

/// A number reads as itself, with a sign or without.
pub proof fn law_number_read(n: nat)
    ensures
        n <= i32::MAX ==> i32_value(decimal(n)) == Some(n as i32),
        n <= i32::MAX ==> i32_value(seq!['+'] + decimal(n)) == Some(n as i32),
        n <= 0x8000_0000 ==> i32_value(seq!['-'] + decimal(n)) == Some((-n) as i32),
        n > i32::MAX ==> i32_value(decimal(n)) is None,
        n > 0x8000_0000 ==> i32_value(seq!['-'] + decimal(n)) is None,
        n <= u32::MAX ==> u32_value(decimal(n)) == Some(n as u32),
        n <= u32::MAX ==> u32_value(seq!['+'] + decimal(n)) == Some(n as u32),
        n > u32::MAX ==> u32_value(decimal(n)) is None,
        u32_value(seq!['-'] + decimal(n)) is None,
{
    law_decimal(n);
    let d = decimal(n);
    let plus = seq!['+'] + d;
    let minus = seq!['-'] + d;
    assert(plus.drop_first() == d);
    assert(minus.drop_first() == d);
    assert(is_digit(d[0]));
    assert(unsigned_part(d) == d);
    assert(!is_digit(minus[0]));
}

/// Two texts are ordered by the first characters in which they differ; a text
/// comes before any that goes on after it.
pub proof fn law_text_before(common: Seq<char>, a: Seq<char>, b: Seq<char>)
    requires
        b.len() > 0,
        a.len() > 0 ==> a[0] < b[0],
    ensures
        text_before(common + a, common + b),
        !text_before(common + b, common + a),
    decreases common.len(),
{
    if common.len() > 0 {
        assert((common + a).drop_first() == common.drop_first() + a);
        assert((common + b).drop_first() == common.drop_first() + b);
        law_text_before(common.drop_first(), a, b);
    } else {
        assert(common + a == a);
        assert(common + b == b);
    }
}

} // verus!

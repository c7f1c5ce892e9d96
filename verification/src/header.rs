//! Why a header is malformed.
//!
//! A header is read member by member. The first thing that is wrong with it is
//! reported, with the place up to which it was read.

use vstd::prelude::*;
use vstd::string::*;
use crate::bytes;
use crate::json;
use crate::json::Cutter;
use crate::schema;
use crate::text;

verus! {

/// The names of the fields of a header, in order.
pub open spec fn header_names() -> Seq<Seq<char>> {
    seq!["type"@, "version"@, "data_length"@, "payload_length"@, "data"@]
}

/// The number of lines that end in `text`.
pub open spec fn line_ends(text: Seq<u8>) -> nat
    decreases text.len(),
{
    if text.len() == 0 {
        0
    } else {
        line_ends(text.drop_last()) + (if text.last() == 10 {
            1nat
        } else {
            0nat
        })
    }
}

/// The number of bytes in the last line of `text`.
pub open spec fn last_line(text: Seq<u8>) -> nat
    decreases text.len(),
{
    if text.len() == 0 || text.last() == 10 {
        0
    } else {
        last_line(text.drop_last()) + 1
    }
}

/// The words for a line and a column.
pub open spec fn at_line(line: nat, column: nat) -> Seq<char> {
    " at line "@ + text::decimal(line) + " column "@ + text::decimal(column)
}

/// The words for the place behind the first `i` bytes of `text`.
pub open spec fn place(text: Seq<u8>, i: int) -> Seq<char> {
    at_line(line_ends(text.take(i)) + 1, last_line(text.take(i)))
}

/// `text` with spaces for its first `i` bytes, in lines as before, so that what
/// follows keeps its place.
pub open spec fn blanked(text: Seq<u8>, i: int) -> Seq<u8> {
    Seq::new(
        text.len(),
        |k: int|
            if k < i && text[k] != 10 {
                32u8
            } else {
                text[k]
            },
    )
}

/// The white space of JSON.
pub open spec fn is_blank(b: u8) -> bool {
    b == 32 || b == 10 || b == 9 || b == 13
}

/// The first position from `i` on that holds no white space.
pub open spec fn next_token(text: Seq<u8>, i: int) -> int
    decreases text.len() - i,
{
    if i < 0 || i >= text.len() || !is_blank(text[i]) {
        i
    } else {
        next_token(text, i + 1)
    }
}

/// `null` stands at `i`, after any white space.
pub open spec fn null_at(text: Seq<u8>, i: int) -> bool {
    let k = next_token(text, i);
    0 <= k && k + 4 <= text.len() && text[k] == 110 && text[k + 1] == 117 && text[k + 2] == 108
        && text[k + 3] == 108
}

/// The byte at `i` stands in the outermost brackets, in no string and in no
/// inner brackets.
pub open spec fn outermost(text: Seq<u8>, i: int) -> bool {
    json::cut(text.take(i)).depth == 1 && !json::cut(text.take(i)).quoted
}

/// Where a member ends, from `i` on; the end of the text where it does not.
pub open spec fn member_end(text: Seq<u8>, i: int) -> int
    decreases text.len() - i,
{
    if i < 0 || i >= text.len() {
        text.len() as int
    } else if outermost(text, i) && (text[i] == 44 || text[i] == 125 || text[i] == 93) {
        i
    } else {
        member_end(text, i + 1)
    }
}

/// Where the outermost brackets close, from `i` on; the end of the text where
/// they do not.
pub open spec fn closing(text: Seq<u8>, i: int) -> int
    decreases text.len() - i,
{
    if i < 0 || i >= text.len() {
        text.len() as int
    } else if outermost(text, i) && (text[i] == 125 || text[i] == 93) {
        i
    } else {
        closing(text, i + 1)
    }
}

/// The member that begins behind the position `d`, alone in brackets, at its
/// place in the text.
pub open spec fn alone_in_place(text: Seq<u8>, d: int, open: u8, close: u8) -> Seq<u8> {
    let end = member_end(text, d + 1);
    let member = blanked(text, d).take(end).update(d, open);
    if end < text.len() {
        member.push(close)
    } else {
        member
    }
}

/// What is wrong with the value at `p` of the field called `name`, whose member
/// begins behind `d`, if anything is.
pub open spec fn field_error(text: Seq<u8>, name: Seq<char>, d: int, p: int) -> Option<Seq<char>> {
    if name == "type"@ {
        json::json_string_error(blanked(text, p))
    } else if name == "version"@ {
        if null_at(text, p) {
            None
        } else {
            json::json_string_error(blanked(text, p))
        }
    } else if name == "data"@ {
        match json::json_parsed(alone_in_place(text, d, 123, 125)) {
            Ok(_) => None,
            Err(reason) => Some(reason),
        }
    } else if null_at(text, p) {
        None
    } else {
        json::json_size_error(blanked(text, p))
    }
}

/// The text up to the colon at `i`, closed as if what follows were fine.
pub open spec fn closed_at(text: Seq<u8>, i: int) -> Seq<u8> {
    text.take(i) + seq![58u8, 48u8, 125u8]
}

/// The name that a member begins with, where there is nothing more of it yet.
pub open spec fn name_of(member: Seq<u8>) -> Option<Seq<char>> {
    match json::json_keys(seq![123u8] + member + seq![58u8, 48u8, 125u8]) {
        Ok(names) if names.len() == 1 => Some(names[0]),
        _ => None,
    }
}

/// The last byte that is no white space is a quotation mark.
pub open spec fn ends_in_quote(member: Seq<u8>) -> bool
    decreases member.len(),
{
    if member.len() == 0 {
        false
    } else if is_blank(member.last()) {
        ends_in_quote(member.drop_last())
    } else {
        member.last() == 34
    }
}

/// The name before `i`, where a member has come that far.
pub open spec fn name_before(text: Seq<u8>, i: int) -> Option<Seq<char>> {
    let member = json::cut(text.take(i)).current;
    if outermost(text, i) && (i < text.len() ==> !is_blank(text[i])) && ends_in_quote(member) {
        name_of(member)
    } else {
        None
    }
}

/// The message about a field that is given twice.
pub open spec fn duplicate_field(name: Seq<char>) -> Seq<char> {
    "duplicate field `"@ + name + "`"@
}

/// What is wrong with the first bad field from `i` on, where `seen` came before,
/// if nothing else is wrong before it.
pub open spec fn fields_error(text: Seq<u8>, i: int, seen: Seq<Seq<char>>) -> Option<Seq<char>>
    decreases text.len() - i + 1,
{
    if i < 0 || i > text.len() {
        None
    } else {
        match name_before(text, i) {
            Some(name) if header_names().contains(name) => {
                let d = i - json::cut(text.take(i)).current.len() - 1;
                if json::json_keys(closed_at(text, i)) is Err {
                    None
                } else if seen.contains(name) {
                    Some(duplicate_field(name) + place(text, i))
                } else if i >= text.len() || text[i] != 58 {
                    None
                } else if field_error(text, name, d, i + 1) is Some {
                    field_error(text, name, d, i + 1)
                } else {
                    fields_error(text, i + 1, seen.push(name))
                }
            },
            _ => fields_error(text, i + 1, seen),
        }
    }
}

/// What is wrong with a header in braces.
pub open spec fn object_error(text: Seq<u8>) -> Seq<char> {
    let end = closing(text, 0);
    if fields_error(text, 0, Seq::empty()) is Some {
        fields_error(text, 0, Seq::empty())->0
    } else {
        match json::json_keys(text.take(end + 1)) {
            Ok(names) if end < text.len() && !names.contains("type"@) => schema::missing_field(
                "type"@,
            ) + place(text, end + 1),
            _ => skipping_error(text),
        }
    }
}

/// What is wrong with a text of which everything is skipped but the names.
pub open spec fn skipping_error(text: Seq<u8>) -> Seq<char> {
    match json::json_keys(text) {
        Ok(_) => Seq::empty(),
        Err((message, _, _)) => message,
    }
}

/// What is wrong with a header that is in no brackets at all.
pub open spec fn bare_error(text: Seq<u8>) -> Seq<char> {
    match json::json_keys(text) {
        Ok(_) => Seq::empty(),
        Err((message, line, column)) => {
            let suffix = at_line(line as nat, column as nat);
            match text::before_suffix(message, "a map"@ + suffix) {
                Some(found) => found + "struct Header"@ + suffix,
                None => message,
            }
        },
    }
}

/// More elements, and the end of the list.
pub open spec fn rest_of_list(n: int) -> Seq<u8>
    decreases n,
{
    if n <= 0 {
        seq![93u8]
    } else {
        seq![44u8, 48u8] + rest_of_list(n - 1)
    }
}

/// An element begins behind the position `i`, the first one where `k` is zero.
pub open spec fn element_before(text: Seq<u8>, i: int, k: int) -> bool {
    if k == 0 {
        text[i] == 91 && json::cut(text.take(i)).depth == 0 && !json::cut(text.take(i)).quoted
    } else {
        outermost(text, i) && text[i] == 44
    }
}

/// What is wrong with the element numbered `k` behind `d`, if anything is. What
/// follows the last element is no part of it.
pub open spec fn element_error(text: Seq<u8>, k: int, d: int) -> Option<Seq<char>> {
    let end = member_end(text, d + 1);
    if k < 4 {
        field_error(text, header_names()[k], d, d + 1)
    } else {
        match (
            json::json_parsed(alone_in_place(text, d, 91, 93)),
            json::json_five_error(text.take(end).push(93)),
        ) {
            (Ok(_), _) => None,
            (Err(reason), None) => Some(reason),
            (Err(reason), Some(message)) => if "trailing characters"@.is_prefix_of(message) {
                None
            } else {
                Some(reason)
            },
        }
    }
}

/// What is wrong with the first bad element from `i` on, the next one being
/// numbered `k`, if nothing else is wrong before it.
pub open spec fn elements_error(text: Seq<u8>, i: int, k: int) -> Option<Seq<char>>
    decreases text.len() - i,
{
    if i < 0 || i >= text.len() || k >= 5 {
        None
    } else if !element_before(text, i, k) {
        elements_error(text, i + 1, k)
    } else {
        let next = next_token(text, i + 1);
        if json::json_five_error(text.take(i + 1).push(48) + rest_of_list(4 - k)) is Some || (next
            < text.len() && text[next] == 93) {
            None
        } else if element_error(text, k, i) is Some {
            element_error(text, k, i)
        } else {
            elements_error(text, i + 1, k + 1)
        }
    }
}

/// What is wrong with a header in square brackets.
pub open spec fn array_error(text: Seq<u8>) -> Seq<char> {
    let end = closing(text, 0);
    let first = next_token(text, next_token(text, 0) + 1);
    let count = json::cut(text.take(end + 1)).done.len();
    if elements_error(text, 0, 0) is Some {
        elements_error(text, 0, 0)->0
    } else if first < text.len() && text[first] == 93 {
        schema::wrong_length(0, "struct Header with 5 elements"@) + place(text, first + 1)
    } else if end < text.len() && count < 5 && json::json_five_error(
        text.take(end) + rest_of_list(5 - count),
    ) is None {
        let next = next_token(text, end + 1);
        "trailing characters"@ + place(
            text,
            if next < text.len() {
                next + 1
            } else {
                next
            },
        )
    } else {
        match json::json_five_error(text) {
            Some(message) => message,
            None => Seq::empty(),
        }
    }
}

/// What is wrong with a text that does not describe a header.
pub open spec fn reason_of(text: Seq<u8>) -> Seq<char> {
    let first = next_token(text, 0);
    if first < text.len() && text[first] == 123 {
        object_error(text)
    } else if first < text.len() && text[first] == 91 {
        array_error(text)
    } else {
        bare_error(text)
    }
}

/// Gives the words for a line and a column.
fn show_line(line: u128, column: u128) -> (r: String)
    ensures
        r@ == at_line(line as nat, column as nat),
{
    let mut r = String::from_str(" at line ");
    r.append(text::to_long_decimal(line).as_str());
    r.append(" column ");
    r.append(text::to_long_decimal(column).as_str());
    r
}

/// Gives the words for the place behind the first `i` bytes of `text`.
fn show_place(text: &[u8], i: usize) -> (r: String)
    requires
        i <= text@.len(),
    ensures
        r@ == place(text@, i as int),
{
    let mut line: usize = 0;
    let mut column: usize = 0;
    let mut k: usize = 0;
    while k < i
        invariant
            k <= i <= text@.len(),
            line <= k,
            column <= k,
            line == line_ends(text@.take(k as int)),
            column == last_line(text@.take(k as int)),
        decreases i - k,
    {
        proof {
            assert(text@.take(k + 1).drop_last() == text@.take(k as int));
        }
        if text[k] == 10 {
            line = line + 1;
            column = 0;
        } else {
            column = column + 1;
        }
        k = k + 1;
    }
    show_line(line as u128 + 1, column as u128)
}

/// Puts spaces for the first `i` bytes of `text`, up to `end`.
fn blank(text: &[u8], i: usize, end: usize) -> (r: Vec<u8>)
    requires
        end <= text@.len(),
    ensures
        r@ == blanked(text@, i as int).take(end as int),
{
    let ghost all = blanked(text@, i as int);
    let mut r: Vec<u8> = Vec::new();
    let mut k: usize = 0;
    while k < end
        invariant
            k <= end <= text@.len(),
            all == blanked(text@, i as int),
            r@ == all.take(k as int),
        decreases end - k,
    {
        let b: u8 = if k < i && text[k] != 10 {
            32
        } else {
            text[k]
        };
        r.push(b);
        proof {
            assert(all.take(k + 1) == all.take(k as int).push(b));
        }
        k = k + 1;
    }
    r
}

/// Puts spaces for the first `i` bytes of `text`.
fn blank_before(text: &[u8], i: usize) -> (r: Vec<u8>)
    ensures
        r@ == blanked(text@, i as int),
{
    proof {
        assert(blanked(text@, i as int).take(text@.len() as int) == blanked(text@, i as int));
    }
    blank(text, i, text.len())
}

/// Tells whether a byte is white space.
fn blank_byte(b: u8) -> (r: bool)
    ensures
        r == is_blank(b),
{
    b == 32 || b == 10 || b == 9 || b == 13
}

/// Finds the first position from `i` on that holds no white space.
fn find_token(text: &[u8], i: usize) -> (r: usize)
    requires
        i <= text@.len(),
    ensures
        r == next_token(text@, i as int),
        i <= r <= text@.len(),
{
    let mut k: usize = i;
    while k < text.len() && blank_byte(text[k])
        invariant
            i <= k <= text@.len(),
            next_token(text@, i as int) == next_token(text@, k as int),
        decreases text@.len() - k,
    {
        k = k + 1;
    }
    k
}

/// Tells whether `null` stands at `i`.
fn is_null_at(text: &[u8], i: usize) -> (r: bool)
    requires
        i <= text@.len(),
    ensures
        r == null_at(text@, i as int),
{
    let k = find_token(text, i);
    text.len() - k >= 4 && text[k] == 110 && text[k + 1] == 117 && text[k + 2] == 108 && text[k + 3]
        == 108
}

/// The first `n` bytes of a text.
fn front(text: &[u8], n: usize) -> (r: Vec<u8>)
    requires
        n <= text@.len(),
    ensures
        r@ == text@.take(n as int),
{
    proof {
        assert(blanked(text@, 0).take(n as int) == text@.take(n as int));
    }
    blank(text, 0, n)
}

/// Finds where a member ends, from `from` on, or where the outermost brackets
/// close.
fn find_end(text: &[u8], from: usize, commas: bool) -> (r: usize)
    requires
        from <= text@.len(),
    ensures
        r == (if commas {
            member_end(text@, from as int)
        } else {
            closing(text@, from as int)
        }),
        from <= r <= text@.len(),
{
    let mut cutter = Cutter::new();
    let mut i: usize = 0;
    proof {
        assert(text@.take(0) == Seq::<u8>::empty());
    }
    while i < text.len()
        invariant
            i <= text@.len(),
            from <= text@.len(),
            cutter.depth <= i,
            cutter@ == json::cut(text@.take(i as int)),
            i >= from ==> member_end(text@, from as int) == member_end(text@, i as int) || !commas,
            i >= from ==> closing(text@, from as int) == closing(text@, i as int) || commas,
        decreases text@.len() - i,
    {
        let b = text[i];
        if i >= from && cutter.depth == 1 && !cutter.quoted && (b == 125 || b == 93 || (commas && b
            == 44)) {
            return i;
        }
        proof {
            assert(text@.take(i + 1).drop_last() == text@.take(i as int));
        }
        cutter.step(b);
        i = i + 1;
    }
    i
}

/// Gives the member that begins behind `d`, alone in brackets, at its place.
fn put_alone(text: &[u8], d: usize, open: u8, close: u8) -> (r: Vec<u8>)
    requires
        d < text@.len(),
    ensures
        r@ == alone_in_place(text@, d as int, open, close),
{
    proof {
        assert(text@.len() == text.len());
    }
    let end = find_end(text, d + 1, true);
    let mut r = blank(text, d, end);
    r.set(d, open);
    if end < text.len() {
        r.push(close);
    }
    r
}

/// Reads a text, and gives what is wrong with it.
fn parse_error(text: &[u8]) -> (r: Option<String>)
    ensures
        text::opt_text(r) == (match json::json_parsed(text@) {
            Ok(_) => None,
            Err(reason) => Some(reason),
        }),
{
    match json::parse(text) {
        Ok(_) => None,
        Err(e) => Some(e),
    }
}

/// Gives what is wrong with the value of a field.
fn find_field_error(text: &[u8], name: &str, d: usize, p: usize) -> (r: Option<String>)
    requires
        d < p <= text@.len(),
    ensures
        text::opt_text(r) == field_error(text@, name@, d as int, p as int),
{
    if text::same(name, "type") {
        return json::string_error(blank_before(text, p).as_slice());
    }
    if text::same(name, "version") {
        if is_null_at(text, p) {
            return None;
        }
        return json::string_error(blank_before(text, p).as_slice());
    }
    if text::same(name, "data") {
        return parse_error(put_alone(text, d, 123, 125).as_slice());
    }
    if is_null_at(text, p) {
        return None;
    }
    json::size_error(blank_before(text, p).as_slice())
}

/// Reads the name that a member begins with.
fn read_name(member: &Vec<u8>) -> (r: Option<String>)
    ensures
        text::opt_text(r) == name_of(member@),
{
    let mut whole: Vec<u8> = Vec::new();
    whole.push(123);
    bytes::put_bytes(&mut whole, member.as_slice());
    whole.push(58);
    whole.push(48);
    whole.push(125);
    proof {
        assert(whole@ == seq![123u8] + member@ + seq![58u8, 48u8, 125u8]);
    }
    match json::keys(whole.as_slice()) {
        Ok(names) => if names.len() == 1 {
            Some(names[0].clone())
        } else {
            None
        },
        Err(_) => None,
    }
}

/// Tells whether the last byte that is no white space is a quotation mark.
fn last_is_quote(member: &Vec<u8>) -> (r: bool)
    ensures
        r == ends_in_quote(member@),
{
    let mut n: usize = member.len();
    proof {
        assert(member@.take(n as int) == member@);
    }
    while n > 0
        invariant
            n <= member@.len(),
            ends_in_quote(member@) == ends_in_quote(member@.take(n as int)),
        decreases n,
    {
        let b = member[n - 1];
        proof {
            assert(member@.take(n as int).last() == b);
            assert(member@.take(n as int).drop_last() == member@.take(n - 1));
        }
        if !blank_byte(b) {
            return b == 34;
        }
        n = n - 1;
    }
    false
}

/// Tells whether a name is that of a field of a header.
fn is_field(name: &str) -> (r: bool)
    ensures
        r == header_names().contains(name@),
{
    let ghost names = header_names();
    proof {
        assert(names[0] == "type"@ && names[1] == "version"@ && names[2] == "data_length"@
            && names[3] == "payload_length"@ && names[4] == "data"@);
        assert(names.contains(name@) ==> name@ == "type"@ || name@ == "version"@ || name@
            == "data_length"@ || name@ == "payload_length"@ || name@ == "data"@);
    }
    text::same(name, "type") || text::same(name, "version") || text::same(name, "data_length")
        || text::same(name, "payload_length") || text::same(name, "data")
}

/// Finds what is wrong with the first bad field of a header in braces.
fn find_fields_error(text: &[u8]) -> (r: Option<String>)
    ensures
        text::opt_text(r) == fields_error(text@, 0, Seq::empty()),
{
    let mut cutter = Cutter::new();
    let mut seen: Vec<String> = Vec::new();
    let mut i: usize = 0;
    proof {
        assert(text@.take(0) == Seq::<u8>::empty());
        assert(text::texts(seen@) == Seq::<Seq<char>>::empty());
        json::lemma_current_length(text@.take(0));
    }
    loop
        invariant
            i <= text@.len(),
            cutter.depth <= i,
            cutter@ == json::cut(text@.take(i as int)),
            fields_error(text@, 0, Seq::empty()) == fields_error(
                text@,
                i as int,
                text::texts(seen@),
            ),
        decreases text@.len() - i,
    {
        if cutter.depth == 1 && !cutter.quoted && (i >= text.len() || !blank_byte(text[i]))
            && last_is_quote(&cutter.current) {
            if let Some(name) = read_name(&cutter.current) {
                if is_field(name.as_str()) {
                    let mut closed = front(text, i);
                    closed.push(58);
                    closed.push(48);
                    closed.push(125);
                    proof {
                        assert(closed@ == closed_at(text@, i as int));
                        json::lemma_current_length(text@.take(i as int));
                    }
                    let d: usize = i - cutter.current.len() - 1;
                    if json::keys(closed.as_slice()).is_err() {
                        return None;
                    }
                    if text::list_has(&seen, name.as_str()) {
                        let mut r = String::from_str("duplicate field `");
                        r.append(name.as_str());
                        r.append("`");
                        r.append(show_place(text, i).as_str());
                        return Some(r);
                    }
                    if i >= text.len() || text[i] != 58 {
                        return None;
                    }
                    let error = find_field_error(text, name.as_str(), d, i + 1);
                    if error.is_some() {
                        return error;
                    }
                    let ghost before = text::texts(seen@);
                    let ghost added = name@;
                    seen.push(name);
                    proof {
                        assert(text::texts(seen@) == before.push(added));
                    }
                }
            }
        }
        if i >= text.len() {
            proof {
                assert(fields_error(text@, i + 1, text::texts(seen@)) is None);
            }
            return None;
        }
        proof {
            assert(text@.take(i + 1).drop_last() == text@.take(i as int));
        }
        cutter.step(text[i]);
        i = i + 1;
    }
}

/// Finds what is wrong with a header in braces.
fn find_object_error(text: &[u8]) -> (r: String)
    ensures
        r@ == object_error(text@),
{
    if let Some(error) = find_fields_error(text) {
        return error;
    }
    let end = find_end(text, 0, false);
    if end < text.len() {
        if let Ok(names) = json::keys(front(text, end + 1).as_slice()) {
            if !text::list_has(&names, "type") {
                let mut r = String::from_str("missing field `type`");
                proof {
                    reveal_strlit("missing field `type`");
                    reveal_strlit("missing field `");
                    reveal_strlit("type");
                    reveal_strlit("`");
                    assert(r@ == schema::missing_field("type"@));
                }
                r.append(show_place(text, end + 1).as_str());
                return r;
            }
        }
    }
    match json::keys(text) {
        Ok(_) => String::new(),
        Err((message, _, _)) => message,
    }
}

/// Finds what is wrong with a header that is in no brackets at all.
fn find_bare_error(text: &[u8]) -> (r: String)
    ensures
        r@ == bare_error(text@),
{
    match json::keys(text) {
        Ok(_) => String::new(),
        Err((message, line, column)) => {
            let suffix = show_line(line as u128, column as u128);
            let mut old_end = String::from_str("a map");
            old_end.append(suffix.as_str());
            match text::strip_suffix(message.as_str(), old_end.as_str()) {
                Some(found) => {
                    let mut r = found;
                    r.append("struct Header");
                    r.append(suffix.as_str());
                    r
                },
                None => message,
            }
        },
    }
}

/// Appends more elements and the end of the list.
fn put_rest(out: &mut Vec<u8>, n: usize)
    ensures
        final(out)@ == old(out)@ + rest_of_list(n as int),
{
    let ghost before = out@;
    let mut k: usize = n;
    proof {
        assert(before + rest_of_list(n as int) == out@ + rest_of_list(k as int));
    }
    while k > 0
        invariant
            k <= n,
            before + rest_of_list(n as int) == out@ + rest_of_list(k as int),
        decreases k,
    {
        let ghost now = out@;
        out.push(44);
        out.push(48);
        k = k - 1;
        proof {
            assert(now + (seq![44u8, 48u8] + rest_of_list(k as int)) == out@ + rest_of_list(
                k as int,
            ));
        }
    }
    out.push(93);
    proof {
        assert(out@ == before + rest_of_list(n as int));
    }
}

/// Finds what is wrong with an element of a header in square brackets.
fn find_element_error(text: &[u8], k: usize, d: usize) -> (r: Option<String>)
    requires
        k < 5,
        d < text@.len(),
    ensures
        text::opt_text(r) == element_error(text@, k as int, d as int),
{
    proof {
        assert(text@.len() == text.len());
    }
    if k == 0 {
        return find_field_error(text, "type", d, d + 1);
    }
    if k == 1 {
        return find_field_error(text, "version", d, d + 1);
    }
    if k == 2 {
        return find_field_error(text, "data_length", d, d + 1);
    }
    if k == 3 {
        return find_field_error(text, "payload_length", d, d + 1);
    }
    let end = find_end(text, d + 1, true);
    let mut closed = front(text, end);
    closed.push(93);
    if let Some(message) = json::five_error(closed.as_slice()) {
        if text::starts_with(message.as_str(), "trailing characters") {
            return None;
        }
    }
    parse_error(put_alone(text, d, 91, 93).as_slice())
}

/// Finds what is wrong with the first bad element of a header in square
/// brackets.
fn find_elements_error(text: &[u8]) -> (r: Option<String>)
    ensures
        text::opt_text(r) == elements_error(text@, 0, 0),
{
    let mut cutter = Cutter::new();
    let mut k: usize = 0;
    let mut i: usize = 0;
    proof {
        assert(text@.take(0) == Seq::<u8>::empty());
    }
    while i < text.len() && k < 5
        invariant
            i <= text@.len(),
            k <= 5,
            cutter.depth <= i,
            cutter@ == json::cut(text@.take(i as int)),
            elements_error(text@, 0, 0) == elements_error(text@, i as int, k as int),
        decreases text@.len() - i,
    {
        let b = text[i];
        let before: bool = if k == 0 {
            b == 91 && cutter.depth == 0 && !cutter.quoted
        } else {
            b == 44 && cutter.depth == 1 && !cutter.quoted
        };
        if before {
            let mut closed = front(text, i + 1);
            closed.push(48);
            put_rest(&mut closed, 4 - k);
            if json::five_error(closed.as_slice()).is_some() {
                return None;
            }
            let next = find_token(text, i + 1);
            if next < text.len() && text[next] == 93 {
                return None;
            }
            let error = find_element_error(text, k, i);
            if error.is_some() {
                return error;
            }
            k = k + 1;
        }
        proof {
            assert(text@.take(i + 1).drop_last() == text@.take(i as int));
        }
        cutter.step(b);
        i = i + 1;
    }
    None
}

/// Counts the elements of a list that closes at `end`.
fn count_elements(text: &[u8], end: usize) -> (r: usize)
    requires
        end < text@.len(),
    ensures
        r == json::cut(text@.take(end + 1)).done.len(),
{
    let mut cutter = Cutter::new();
    let mut i: usize = 0;
    proof {
        assert(text@.take(0) == Seq::<u8>::empty());
        assert(text@.len() == text.len());
    }
    while i <= end
        invariant
            i <= end + 1 <= text@.len() <= usize::MAX,
            cutter.depth <= i,
            cutter@ == json::cut(text@.take(i as int)),
        decreases end + 1 - i,
    {
        proof {
            assert(text@.take(i + 1).drop_last() == text@.take(i as int));
        }
        cutter.step(text[i]);
        i = i + 1;
    }
    cutter.done.len()
}

/// Finds what is wrong with a header in square brackets.
fn find_array_error(text: &[u8]) -> (r: String)
    requires
        next_token(text@, 0) < text@.len(),
    ensures
        r@ == array_error(text@),
{
    if let Some(error) = find_elements_error(text) {
        return error;
    }
    proof {
        assert(text@.len() == text.len());
    }
    let first = find_token(text, find_token(text, 0) + 1);
    if first < text.len() && text[first] == 93 {
        let mut r = schema::length_error(0, "struct Header with 5 elements");
        r.append(show_place(text, first + 1).as_str());
        return r;
    }
    let end = find_end(text, 0, false);
    if end < text.len() {
        let count = count_elements(text, end);
        if count < 5 {
            let mut filled = front(text, end);
            put_rest(&mut filled, 5 - count);
            if json::five_error(filled.as_slice()).is_none() {
                let next = find_token(text, end + 1);
                let upto: usize = if next < text.len() {
                    next + 1
                } else {
                    next
                };
                let mut r = String::from_str("trailing characters");
                r.append(show_place(text, upto).as_str());
                return r;
            }
        }
    }
    match json::five_error(text) {
        Some(message) => message,
        None => String::new(),
    }
}

/// Tells what is wrong with a text that does not describe a header.
pub fn header_error(text: &[u8]) -> (r: String)
    ensures
        r@ == reason_of(text@),
{
    let first = find_token(text, 0);
    if first < text.len() && text[first] == 123 {
        find_object_error(text)
    } else if first < text.len() && text[first] == 91 {
        find_array_error(text)
    } else {
        find_bare_error(text)
    }
}

/// A place is told by its line and by how many bytes into the line it is; both
/// are counted as they stand before it.
pub proof fn law_place(lines: Seq<u8>, line: Seq<u8>, rest: Seq<u8>)
    requires
        !line.contains(10u8),
    ensures
        place(line + rest, line.len() as int) == " at line "@ + text::decimal(1) + " column "@
            + text::decimal(line.len()),
        place(lines + seq![10u8] + line + rest, (lines.len() + 1 + line.len()) as int) == " at line "@
            + text::decimal(line_ends(lines) + 2) + " column "@ + text::decimal(line.len()),
        line_ends(lines + seq![10u8]) == line_ends(lines) + 1,
        line_ends(line) == 0,
{
    let a = line + rest;
    assert(a.take(line.len() as int) == line);
    let head = lines + seq![10u8];
    let b = head + line + rest;
    assert(b.take((lines.len() + 1 + line.len()) as int) == head + line);
    assert(head.drop_last() == lines);
    lemma_one_line(Seq::empty(), line);
    lemma_one_line(head, line);
    assert(Seq::<u8>::empty() + line == line);
}

/// Bytes without a newline add to the last line.
proof fn lemma_one_line(before: Seq<u8>, line: Seq<u8>)
    requires
        !line.contains(10u8),
        before.len() > 0 ==> before.last() == 10,
    ensures
        line_ends(before + line) == line_ends(before),
        last_line(before + line) == line.len(),
    decreases line.len(),
{
    if line.len() == 0 {
        assert(before + line == before);
    } else {
        let shorter = line.drop_last();
        assert(line.contains(line[line.len() - 1]));
        assert forall|i: int| 0 <= i < shorter.len() implies shorter[i] != 10 by {
            assert(line.contains(line[i]));
        }
        lemma_one_line(before, shorter);
        assert((before + line).drop_last() == before + shorter);
    }
}

/// A header that gives one of its fields a second time is told so, with the
/// place behind the second name.
pub proof fn law_duplicate_told(text: Seq<u8>, i: int, seen: Seq<Seq<char>>, name: Seq<char>)
    requires
        0 <= i <= text.len(),
        name_before(text, i) == Some(name),
        header_names().contains(name),
        seen.contains(name),
        json::json_keys(closed_at(text, i)) is Ok,
    ensures
        fields_error(text, i, seen) == Some("duplicate field `"@ + name + "`"@ + place(text, i)),
{
}

/// A text that is neither an object nor a list is told to be no header, in the
/// words for a text that is no object.
pub proof fn law_no_header_told(text: Seq<u8>, found: Seq<char>, line: int, column: int)
    requires
        next_token(text, 0) < text.len() ==> text[next_token(text, 0)] != 123
            && text[next_token(text, 0)] != 91,
        json::json_keys(text) == Err::<Seq<Seq<char>>, (Seq<char>, int, int)>(
            (
                found + ("a map"@ + (" at line "@ + text::decimal(line as nat) + " column "@
                    + text::decimal(column as nat))),
                line,
                column,
            ),
        ),
    ensures
        reason_of(text) == found + "struct Header"@ + (" at line "@ + text::decimal(line as nat)
            + " column "@ + text::decimal(column as nat)),
{
    let suffix = "a map"@ + at_line(line as nat, column as nat);
    let message = found + suffix;
    assert(message.skip(message.len() - suffix.len()) == suffix);
    assert(message.take(message.len() - suffix.len()) == found);
}

/// A list without elements is told to be too short.
pub proof fn law_empty_list_told(text: Seq<u8>, first: int)
    requires
        next_token(text, 0) < text.len(),
        text[next_token(text, 0)] == 91,
        first == next_token(text, next_token(text, 0) + 1),
        first < text.len(),
        text[first] == 93,
        elements_error(text, 0, 0) is None,
    ensures
        reason_of(text) == "invalid length "@ + text::decimal(0) + ", expected "@
            + "struct Header with 5 elements"@ + place(text, first + 1),
{
}

} // verus!

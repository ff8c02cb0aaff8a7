//! The JSON dialect that the token endpoints speak.
//!
//! The refresh protocols exchange small, flat JSON objects: the request
//! bodies this library emits, and the response bodies it decodes. Both
//! directions are specified here against character-sequence models — the
//! emitted text of a request is pinned down exactly, and the decoder is
//! proved equal to a recursive specification of the grammar.
//!
//! The decoder accepts the flat-object subset these endpoints use: one
//! top-level object whose member values are strings (with the full JSON
//! escape repertoire, surrogate pairs included), integers within the `i64`
//! range, booleans, or `null`. Nested values, floats and bare literals are
//! rejected as malformed, which surfaces as a decode error to the caller.

use vstd::prelude::*;

verus! {

broadcast use vstd::utf8::char_u32_cast;

// ---------------------------------------------------------------------------
// Characters
// ---------------------------------------------------------------------------
/// The hexadecimal digit character for `n`, lower case.
pub open spec fn hex_char(n: u32) -> char {
    if n == 0 {
        '0'
    } else if n == 1 {
        '1'
    } else if n == 2 {
        '2'
    } else if n == 3 {
        '3'
    } else if n == 4 {
        '4'
    } else if n == 5 {
        '5'
    } else if n == 6 {
        '6'
    } else if n == 7 {
        '7'
    } else if n == 8 {
        '8'
    } else if n == 9 {
        '9'
    } else if n == 10 {
        'a'
    } else if n == 11 {
        'b'
    } else if n == 12 {
        'c'
    } else if n == 13 {
        'd'
    } else if n == 14 {
        'e'
    } else {
        'f'
    }
}

/// The numeric value of a hexadecimal digit character, upper or lower case.
pub open spec fn hex_value(c: char) -> Option<u32> {
    let v = c as u32;
    if 0x30 <= v && v <= 0x39 {
        Some((v - 0x30) as u32)
    } else if 0x61 <= v && v <= 0x66 {
        Some((v - 0x61 + 10) as u32)
    } else if 0x41 <= v && v <= 0x46 {
        Some((v - 0x41 + 10) as u32)
    } else {
        None
    }
}

/// JSON insignificant whitespace.
pub open spec fn is_ws(c: char) -> bool {
    c == ' ' || c == '\t' || c == '\n' || c == '\r'
}

/// Decimal digit test.
pub open spec fn is_digit(c: char) -> bool {
    '0' as u32 <= c as u32 && c as u32 <= '9' as u32
}

// ---------------------------------------------------------------------------
// Emitting: JSON string escaping
// ---------------------------------------------------------------------------
/// How one character appears inside a JSON string literal: the two-character
/// escapes for the quote, the backslash and the named control characters, a
/// `\u00..` escape for the remaining control characters, and the character
/// itself for everything else.
pub open spec fn escape_char(c: char) -> Seq<char> {
    if c == '"' {
        seq!['\\', '"']
    } else if c == '\\' {
        seq!['\\', '\\']
    } else if c == '\u{8}' {
        seq!['\\', 'b']
    } else if c == '\t' {
        seq!['\\', 't']
    } else if c == '\n' {
        seq!['\\', 'n']
    } else if c == '\u{c}' {
        seq!['\\', 'f']
    } else if c == '\r' {
        seq!['\\', 'r']
    } else if (c as u32) < 0x20 {
        seq!['\\', 'u', '0', '0', hex_char((c as u32) / 16), hex_char((c as u32) % 16)]
    } else {
        seq![c]
    }
}

/// A whole character sequence, escaped for a JSON string literal.
pub open spec fn escape_string(s: Seq<char>) -> Seq<char>
    decreases s.len(),
{
    if s.len() == 0 {
        Seq::empty()
    } else {
        escape_string(s.drop_last()) + escape_char(s.last())
    }
}

/// A JSON string literal holding `s`: quotes around the escaped text.
pub open spec fn quoted(s: Seq<char>) -> Seq<char> {
    seq!['"'] + escape_string(s) + seq!['"']
}

/// Scope sequences are rendered as a single space-joined string, order
/// preserved, no deduplication.
pub open spec fn join_spaces(parts: Seq<Seq<char>>) -> Seq<char>
    decreases parts.len(),
{
    if parts.len() == 0 {
        Seq::empty()
    } else if parts.len() == 1 {
        parts[0]
    } else {
        join_spaces(parts.drop_last()) + seq![' '] + parts.last()
    }
}

/// The items of a JSON array of string literals, comma-separated.
pub open spec fn quoted_items(parts: Seq<Seq<char>>) -> Seq<char>
    decreases parts.len(),
{
    if parts.len() == 0 {
        Seq::empty()
    } else if parts.len() == 1 {
        quoted(parts[0])
    } else {
        quoted_items(parts.drop_last()) + seq![','] + quoted(parts.last())
    }
}

/// A JSON array holding each part as a string literal, in order.
pub open spec fn quoted_array(parts: Seq<Seq<char>>) -> Seq<char> {
    seq!['['] + quoted_items(parts) + seq![']']
}

/// Relies on std's `String::push`: appends exactly one character.
#[verifier::external_body]
pub(crate) fn push_char(s: &mut String, c: char)
    ensures
        final(s)@ == old(s)@ + seq![c],
{
    s.push(c);
}

/// The hexadecimal digit character for `n`, lower case.
pub(crate) fn hex_digit(n: u32) -> (r: char)
    requires
        n < 16,
    ensures
        r == hex_char(n),
{
    if n == 0 {
        '0'
    } else if n == 1 {
        '1'
    } else if n == 2 {
        '2'
    } else if n == 3 {
        '3'
    } else if n == 4 {
        '4'
    } else if n == 5 {
        '5'
    } else if n == 6 {
        '6'
    } else if n == 7 {
        '7'
    } else if n == 8 {
        '8'
    } else if n == 9 {
        '9'
    } else if n == 10 {
        'a'
    } else if n == 11 {
        'b'
    } else if n == 12 {
        'c'
    } else if n == 13 {
        'd'
    } else if n == 14 {
        'e'
    } else {
        'f'
    }
}

/// Appends `c` to `out` in its escaped form.
fn write_escaped_char(out: &mut String, c: char)
    ensures
        final(out)@ == old(out)@ + escape_char(c),
{
    if c == '"' {
        out.append("\\\"");
        proof {
            reveal_strlit("\\\"");
            assert(final(out)@ =~= old(out)@ + escape_char(c));
        }
    } else if c == '\\' {
        out.append("\\\\");
        proof {
            reveal_strlit("\\\\");
            assert(final(out)@ =~= old(out)@ + escape_char(c));
        }
    } else if c == '\u{8}' {
        out.append("\\b");
        proof {
            reveal_strlit("\\b");
            assert(final(out)@ =~= old(out)@ + escape_char(c));
        }
    } else if c == '\t' {
        out.append("\\t");
        proof {
            reveal_strlit("\\t");
            assert(final(out)@ =~= old(out)@ + escape_char(c));
        }
    } else if c == '\n' {
        out.append("\\n");
        proof {
            reveal_strlit("\\n");
            assert(final(out)@ =~= old(out)@ + escape_char(c));
        }
    } else if c == '\u{c}' {
        out.append("\\f");
        proof {
            reveal_strlit("\\f");
            assert(final(out)@ =~= old(out)@ + escape_char(c));
        }
    } else if c == '\r' {
        out.append("\\r");
        proof {
            reveal_strlit("\\r");
            assert(final(out)@ =~= old(out)@ + escape_char(c));
        }
    } else if (c as u32) < 0x20 {
        out.append("\\u00");
        push_char(out, hex_digit((c as u32) / 16));
        push_char(out, hex_digit((c as u32) % 16));
        proof {
            reveal_strlit("\\u00");
            assert(final(out)@ =~= old(out)@ + escape_char(c));
        }
    } else {
        push_char(out, c);
        proof {
            assert(final(out)@ =~= old(out)@ + escape_char(c));
        }
    }
}

/// Appends `s` as a JSON string literal — quotes and escapes — to `out`.
pub fn write_quoted(out: &mut String, s: &str)
    ensures
        final(out)@ == old(out)@ + quoted(s@),
{
    push_char(out, '"');
    let n = s.unicode_len();
    let mut i: usize = 0;
    while i < n
        invariant
            n == s@.len(),
            i <= n,
            out@ == old(out)@ + seq!['"'] + escape_string(s@.take(i as int)),
        decreases n - i,
    {
        let c = s.get_char(i);
        write_escaped_char(out, c);
        proof {
            assert(s@.take(i + 1).drop_last() =~= s@.take(i as int));
            assert(s@.take(i + 1).last() == s@[i as int]);
            assert(out@ =~= old(out)@ + seq!['"'] + escape_string(s@.take(i + 1)));
        }
        i += 1;
    }
    push_char(out, '"');
    proof {
        assert(s@.take(s@.len() as int) =~= s@);
        assert(final(out)@ =~= old(out)@ + quoted(s@));
    }
}

/// Appends a JSON array holding each part as a string literal, in order.
pub fn write_quoted_array(out: &mut String, parts: &Vec<String>)
    ensures
        final(out)@ == old(out)@ + quoted_array(parts.deep_view()),
{
    push_char(out, '[');
    let mut i: usize = 0;
    while i < parts.len()
        invariant
            i <= parts@.len(),
            out@ == old(out)@ + seq!['['] + quoted_items(parts.deep_view().take(i as int)),
        decreases parts@.len() - i,
    {
        if i > 0 {
            push_char(out, ',');
        }
        write_quoted(out, parts[i].as_str());
        proof {
            let dv = parts.deep_view();
            assert(dv.take(i + 1).drop_last() =~= dv.take(i as int));
            assert(dv.take(i + 1).last() == dv[i as int]);
            assert(out@ =~= old(out)@ + seq!['['] + quoted_items(dv.take(i + 1)));
        }
        i += 1;
    }
    push_char(out, ']');
    proof {
        assert(parts.deep_view().take(parts.deep_view().len() as int) =~= parts.deep_view());
        assert(final(out)@ =~= old(out)@ + quoted_array(parts.deep_view()));
    }
}

/// Joins the scope strings with single spaces into one scope value, order
/// preserved.
pub fn join_scopes(scopes: &Vec<String>) -> (r: String)
    ensures
        r@ == join_spaces(scopes.deep_view()),
{
    let mut out = String::new();
    let mut i: usize = 0;
    while i < scopes.len()
        invariant
            i <= scopes@.len(),
            out@ == join_spaces(scopes.deep_view().take(i as int)),
        decreases scopes@.len() - i,
    {
        if i > 0 {
            out.append(" ");
        }
        out.append(scopes[i].as_str());
        proof {
            reveal_strlit(" ");
            let dv = scopes.deep_view();
            assert(dv.take(i + 1).drop_last() =~= dv.take(i as int));
            assert(dv.take(i + 1).last() == dv[i as int]);
            assert(out@ =~= join_spaces(dv.take(i + 1)));
        }
        i += 1;
    }
    proof {
        assert(scopes.deep_view().take(scopes.deep_view().len() as int) =~= scopes.deep_view());
    }
    out
}

} // verus!

verus! {

// ---------------------------------------------------------------------------
// Decoding: the flat-object grammar
// ---------------------------------------------------------------------------
/// The abstract value of one member of a response object.
pub enum FieldV {
    Str(Seq<char>),
    Int(i64),
    Bool(bool),
    Null,
}

/// One member value of a decoded response object.
pub enum Field {
    Str(String),
    Int(i64),
    Bool(bool),
    Null,
}

impl View for Field {
    type V = FieldV;

    open spec fn view(&self) -> FieldV {
        match self {
            Field::Str(s) => FieldV::Str(s@),
            Field::Int(n) => FieldV::Int(*n),
            Field::Bool(b) => FieldV::Bool(*b),
            Field::Null => FieldV::Null,
        }
    }
}

/// The abstract value of a decoded member list.
pub open spec fn members_view(v: Seq<(String, Field)>) -> Seq<(Seq<char>, FieldV)> {
    Seq::new(v.len(), |i: int| (v[i].0@, v[i].1@))
}

/// The position of the first non-whitespace character at or after `i`.
pub open spec fn spec_skip_ws(s: Seq<char>, i: int) -> int
    decreases s.len() - i,
    when 0 <= i <= s.len()
{
    if i < s.len() && is_ws(s[i]) {
        spec_skip_ws(s, i + 1)
    } else {
        i
    }
}

/// The value of the four hexadecimal digits at `i`, if they are there.
pub open spec fn spec_hex4(s: Seq<char>, i: int) -> Option<u32> {
    if 0 <= i && i + 4 <= s.len() {
        match (hex_value(s[i]), hex_value(s[i + 1]), hex_value(s[i + 2]), hex_value(s[i + 3])) {
            (Some(a), Some(b), Some(c), Some(d)) => Some(
                (a * 0x1000 + b * 0x100 + c * 0x10 + d) as u32,
            ),
            _ => None,
        }
    } else {
        None
    }
}

/// The character that a named escape `\e` stands for.
pub open spec fn unescaped(e: char) -> char {
    if e == 'b' {
        '\u{8}'
    } else if e == 'f' {
        '\u{c}'
    } else if e == 'n' {
        '\n'
    } else if e == 'r' {
        '\r'
    } else if e == 't' {
        '\t'
    } else {
        e
    }
}

/// Parses the remainder of a JSON string literal, starting just after a
/// consumed `"` or escape: the decoded characters up to the closing quote,
/// and the position after it. Escapes follow the JSON grammar, including
/// surrogate pairs; unescaped control characters are malformed.
pub open spec fn spec_parse_string_rest(s: Seq<char>, i: int) -> Option<(Seq<char>, int)>
    decreases s.len() - i,
    when 0 <= i <= s.len()
{
    if i >= s.len() {
        None
    } else if s[i] == '"' {
        Some((Seq::empty(), i + 1))
    } else if s[i] == '\\' {
        if i + 2 > s.len() {
            None
        } else {
            let e = s[i + 1];
            if e == '"' || e == '\\' || e == '/' || e == 'b' || e == 'f' || e == 'n' || e == 'r'
                || e == 't' {
                match spec_parse_string_rest(s, i + 2) {
                    Some((rest, j)) => Some((seq![unescaped(e)] + rest, j)),
                    None => None,
                }
            } else if e == 'u' {
                if i + 6 > s.len() {
                    None
                } else {
                    match spec_hex4(s, i + 2) {
                        None => None,
                        Some(v) => if 0xD800 <= v && v < 0xDC00 {
                            // A high surrogate must be followed by an escaped
                            // low surrogate; together they name one scalar.
                            if i + 12 > s.len() || s[i + 6] != '\\' || s[i + 7] != 'u' {
                                None
                            } else {
                                match spec_hex4(s, i + 8) {
                                    None => None,
                                    Some(w) => if 0xDC00 <= w && w < 0xE000 {
                                        let scalar = (0x10000 + (v - 0xD800) * 0x400 + (w
                                            - 0xDC00)) as u32;
                                        match spec_parse_string_rest(s, i + 12) {
                                            Some((rest, j)) => Some(
                                                (seq![scalar as char] + rest, j),
                                            ),
                                            None => None,
                                        }
                                    } else {
                                        None
                                    },
                                }
                            }
                        } else if 0xDC00 <= v && v < 0xE000 {
                            None
                        } else {
                            match spec_parse_string_rest(s, i + 6) {
                                Some((rest, j)) => Some((seq![v as char] + rest, j)),
                                None => None,
                            }
                        },
                    }
                }
            } else {
                None
            }
        }
    } else if (s[i] as u32) < 0x20 {
        None
    } else {
        match spec_parse_string_rest(s, i + 1) {
            Some((rest, j)) => Some((seq![s[i]] + rest, j)),
            None => None,
        }
    }
}

/// The position of the first non-digit character at or after `i`.
pub open spec fn spec_digits_end(s: Seq<char>, i: int) -> int
    decreases s.len() - i,
    when 0 <= i <= s.len()
{
    if i < s.len() && is_digit(s[i]) {
        spec_digits_end(s, i + 1)
    } else {
        i
    }
}

/// The decimal value of the digits `s[i..j)`, folded onto `acc` from the
/// left.
pub open spec fn spec_dec_val(s: Seq<char>, i: int, j: int, acc: int) -> int
    decreases j - i,
    when i <= j
{
    if i >= j {
        acc
    } else {
        spec_dec_val(s, i + 1, j, acc * 10 + (s[i] as u32 - '0' as u32))
    }
}

/// Parses a JSON integer at `i`: an optional minus sign and a digit run
/// without a redundant leading zero. A fraction or exponent — a float — and
/// a value outside the `i64` range are malformed.
pub open spec fn spec_parse_int(s: Seq<char>, i: int) -> Option<(i64, int)> {
    if !(0 <= i <= s.len()) {
        None
    } else {
        let neg = i < s.len() && s[i] == '-';
        let d0 = if neg {
            i + 1
        } else {
            i
        };
        if d0 >= s.len() || !is_digit(s[d0]) {
            None
        } else {
            let e = spec_digits_end(s, d0);
            if s[d0] == '0' && e != d0 + 1 {
                None
            } else if e < s.len() && (s[e] == '.' || s[e] == 'e' || s[e] == 'E') {
                None
            } else {
                let m = spec_dec_val(s, d0, e, 0);
                let v = if neg {
                    -m
                } else {
                    m
                };
                if i64::MIN <= v <= i64::MAX {
                    Some((v as i64, e))
                } else {
                    None
                }
            }
        }
    }
}

/// Parses one member value at `i`: a string, an integer, a boolean or
/// `null`. Anything else — a nested object or array, a float — is malformed
/// in this dialect.
pub open spec fn spec_parse_field(s: Seq<char>, i: int) -> Option<(FieldV, int)> {
    if !(0 <= i < s.len()) {
        None
    } else if s[i] == '"' {
        match spec_parse_string_rest(s, i + 1) {
            Some((v, j)) => Some((FieldV::Str(v), j)),
            None => None,
        }
    } else if s[i] == '-' || is_digit(s[i]) {
        match spec_parse_int(s, i) {
            Some((v, j)) => Some((FieldV::Int(v), j)),
            None => None,
        }
    } else if s[i] == 't' {
        if i + 4 <= s.len() && s[i + 1] == 'r' && s[i + 2] == 'u' && s[i + 3] == 'e' {
            Some((FieldV::Bool(true), i + 4))
        } else {
            None
        }
    } else if s[i] == 'f' {
        if i + 5 <= s.len() && s[i + 1] == 'a' && s[i + 2] == 'l' && s[i + 3] == 's' && s[i + 4]
            == 'e' {
            Some((FieldV::Bool(false), i + 5))
        } else {
            None
        }
    } else if s[i] == 'n' {
        if i + 4 <= s.len() && s[i + 1] == 'u' && s[i + 2] == 'l' && s[i + 3] == 'l' {
            Some((FieldV::Null, i + 4))
        } else {
            None
        }
    } else {
        None
    }
}

/// Parses a member list starting at the first member's key, through the
/// closing brace: the members in order, and the position after the brace.
pub open spec fn spec_parse_members(s: Seq<char>, i: int) -> Option<
    (Seq<(Seq<char>, FieldV)>, int),
>
    decreases s.len() - i,
    when 0 <= i <= s.len()
{
    if !(i < s.len() && s[i] == '"') {
        None
    } else {
        match spec_parse_string_rest(s, i + 1) {
            None => None,
            Some((key, j)) => if !(i < j <= s.len()) {
                None
            } else {
                let k = spec_skip_ws(s, j);
                if !(j <= k && k < s.len() && s[k] == ':') {
                    None
                } else {
                    let m = spec_skip_ws(s, k + 1);
                    if !(k < m <= s.len()) {
                        None
                    } else {
                        match spec_parse_field(s, m) {
                            None => None,
                            Some((v, e)) => if !(m < e <= s.len()) {
                                None
                            } else {
                                let w = spec_skip_ws(s, e);
                                if !(e <= w <= s.len()) {
                                    None
                                } else if w < s.len() && s[w] == ',' {
                                    let next = spec_skip_ws(s, w + 1);
                                    if i < next <= s.len() {
                                        match spec_parse_members(s, next) {
                                            Some((rest, z)) => Some((seq![(key, v)] + rest, z)),
                                            None => None,
                                        }
                                    } else {
                                        None
                                    }
                                } else if w < s.len() && s[w] == '}' {
                                    Some((seq![(key, v)], w + 1))
                                } else {
                                    None
                                }
                            },
                        }
                    }
                }
            },
        }
    }
}

/// Parses a whole response body: one flat object, nothing but whitespace
/// around it.
pub open spec fn spec_parse_object(s: Seq<char>) -> Option<Seq<(Seq<char>, FieldV)>> {
    let i = spec_skip_ws(s, 0);
    if !(0 <= i && i < s.len() && s[i] == '{') {
        None
    } else {
        let j = spec_skip_ws(s, i + 1);
        if !(i < j <= s.len()) {
            None
        } else if j < s.len() && s[j] == '}' {
            if spec_skip_ws(s, j + 1) == s.len() {
                Some(Seq::empty())
            } else {
                None
            }
        } else {
            match spec_parse_members(s, j) {
                Some((ms, e)) => if e <= s.len() && spec_skip_ws(s, e) == s.len() {
                    Some(ms)
                } else {
                    None
                },
                None => None,
            }
        }
    }
}

/// The value of the first member named `name`, if any.
pub open spec fn spec_field_of(ms: Seq<(Seq<char>, FieldV)>, name: Seq<char>) -> Option<FieldV>
    decreases ms.len(),
{
    if ms.len() == 0 {
        None
    } else if ms[0].0 == name {
        Some(ms[0].1)
    } else {
        spec_field_of(ms.drop_first(), name)
    }
}

} // verus!

verus! {

/// Relies on std's `char::from_u32`: yields the character with this scalar
/// value exactly when the value is a Unicode scalar — not a surrogate, and
/// at most `0x10FFFF`.
#[verifier::external_body]
fn char_from_code(v: u32) -> (r: Option<char>)
    ensures
        r is Some <==> (v < 0xD800 || (0xE000 <= v && v <= 0x10FFFF)),
        r matches Some(c) ==> c as u32 == v,
{
    char::from_u32(v)
}

/// Relies on std's `String::from_utf8`: succeeds exactly on valid UTF-8 and
/// decodes it.
#[verifier::external_body]
pub(crate) fn utf8_to_string(v: &Vec<u8>) -> (r: Option<String>)
    ensures
        r is Some <==> vstd::utf8::valid_utf8(v@),
        r matches Some(s) ==> s@ == vstd::utf8::decode_utf8(v@),
{
    String::from_utf8(v.clone()).ok()
}

/// The characters of `s`, as an indexable vector.
pub fn str_chars(s: &str) -> (r: Vec<char>)
    ensures
        r@ == s@,
{
    let n = s.unicode_len();
    let mut r: Vec<char> = Vec::new();
    let mut i: usize = 0;
    while i < n
        invariant
            n == s@.len(),
            i <= n,
            r@ == s@.take(i as int),
        decreases n - i,
    {
        r.push(s.get_char(i));
        proof {
            assert(s@.take(i + 1) =~= s@.take(i as int).push(s@[i as int]));
        }
        i += 1;
    }
    proof {
        assert(s@.take(n as int) =~= s@);
    }
    r
}

/// The position of the first non-whitespace character at or after `i`.
fn skip_ws(chars: &Vec<char>, i: usize) -> (r: usize)
    requires
        i <= chars@.len(),
    ensures
        r == spec_skip_ws(chars@, i as int),
        i <= r <= chars@.len(),
{
    let n = chars.len();
    let mut k = i;
    while k < n && (chars[k] == ' ' || chars[k] == '\t' || chars[k] == '\n' || chars[k] == '\r')
        invariant
            n == chars@.len(),
            i <= k <= n,
            spec_skip_ws(chars@, i as int) == spec_skip_ws(chars@, k as int),
        decreases n - k,
    {
        k += 1;
    }
    k
}

/// The value of the four hexadecimal digits at `i`, if they are there.
fn hex4(chars: &Vec<char>, i: usize) -> (r: Option<u32>)
    requires
        i + 4 <= chars@.len(),
    ensures
        r == spec_hex4(chars@, i as int),
{
    let n = chars.len();
    let a = hex_value_of(chars[i]);
    let b = hex_value_of(chars[i + 1]);
    let c = hex_value_of(chars[i + 2]);
    let d = hex_value_of(chars[i + 3]);
    match (a, b, c, d) {
        (Some(a), Some(b), Some(c), Some(d)) => Some(a * 0x1000 + b * 0x100 + c * 0x10 + d),
        _ => None,
    }
}

/// The numeric value of a hexadecimal digit character.
fn hex_value_of(c: char) -> (r: Option<u32>)
    ensures
        r == hex_value(c),
{
    let v = c as u32;
    if 0x30 <= v && v <= 0x39 {
        Some(v - 0x30)
    } else if 0x61 <= v && v <= 0x66 {
        Some(v - 0x61 + 10)
    } else if 0x41 <= v && v <= 0x46 {
        Some(v - 0x41 + 10)
    } else {
        None
    }
}

/// Decodes the remainder of a JSON string literal; see
/// [`spec_parse_string_rest`].
fn parse_string_rest(chars: &Vec<char>, i: usize) -> (r: Option<(String, usize)>)
    requires
        i <= chars@.len(),
    ensures
        match r {
            Some(v) => {
                &&& spec_parse_string_rest(chars@, i as int) == Some((v.0@, v.1 as int))
                &&& i < v.1 <= chars@.len()
            },
            None => spec_parse_string_rest(chars@, i as int) is None,
        },
    decreases chars@.len() - i,
{
    let n = chars.len();
    if i >= n {
        return None;
    }
    let c = chars[i];
    if c == '"' {
        let out = String::new();
        proof {
            assert(out@ =~= Seq::<char>::empty());
        }
        return Some((out, i + 1));
    }
    if c == '\\' {
        if n - i < 2 {
            return None;
        }
        let e = chars[i + 1];
        if e == '"' || e == '\\' || e == '/' || e == 'b' || e == 'f' || e == 'n' || e == 'r' || e
            == 't' {
            let u = if e == 'b' {
                '\u{8}'
            } else if e == 'f' {
                '\u{c}'
            } else if e == 'n' {
                '\n'
            } else if e == 'r' {
                '\r'
            } else if e == 't' {
                '\t'
            } else {
                e
            };
            match parse_string_rest(chars, i + 2) {
                Some((rest, j)) => {
                    let mut out = String::new();
                    push_char(&mut out, u);
                    out.append(rest.as_str());
                    proof {
                        assert(out@ =~= seq![unescaped(e)] + rest@);
                    }
                    Some((out, j))
                },
                None => None,
            }
        } else if e == 'u' {
            if n - i < 6 {
                return None;
            }
            match hex4(chars, i + 2) {
                None => None,
                Some(v) => {
                    if 0xD800 <= v && v < 0xDC00 {
                        if n - i < 12 || !(chars[i + 6] == '\\') || !(chars[i + 7] == 'u') {
                            return None;
                        }
                        match hex4(chars, i + 8) {
                            None => None,
                            Some(w) => {
                                if 0xDC00 <= w && w < 0xE000 {
                                    let scalar = 0x10000 + (v - 0xD800) * 0x400 + (w - 0xDC00);
                                    match char_from_code(scalar) {
                                        Some(u) => {
                                            proof {
                                                vstd::utf8::char_u32_cast(u, scalar);
                                            }
                                            match parse_string_rest(chars, i + 12) {
                                                Some((rest, j)) => {
                                                    let mut out = String::new();
                                                    push_char(&mut out, u);
                                                    out.append(rest.as_str());
                                                    proof {
                                                        assert(out@ =~= seq![(scalar as char)]
                                                            + rest@);
                                                    }
                                                    Some((out, j))
                                                },
                                                None => None,
                                            }
                                        },
                                        None => {
                                            proof {
                                                assert(false);
                                            }
                                            None
                                        },
                                    }
                                } else {
                                    None
                                }
                            },
                        }
                    } else if 0xDC00 <= v && v < 0xE000 {
                        None
                    } else {
                        match char_from_code(v) {
                            Some(u) => {
                                proof {
                                    vstd::utf8::char_u32_cast(u, v);
                                }
                                match parse_string_rest(chars, i + 6) {
                                    Some((rest, j)) => {
                                        let mut out = String::new();
                                        push_char(&mut out, u);
                                        out.append(rest.as_str());
                                        proof {
                                            assert(out@ =~= seq![(v as char)] + rest@);
                                        }
                                        Some((out, j))
                                    },
                                    None => None,
                                }
                            },
                            None => {
                                proof {
                                    assert(false);
                                }
                                None
                            },
                        }
                    }
                },
            }
        } else {
            None
        }
    } else if (c as u32) < 0x20 {
        None
    } else {
        match parse_string_rest(chars, i + 1) {
            Some((rest, j)) => {
                let mut out = String::new();
                push_char(&mut out, c);
                out.append(rest.as_str());
                proof {
                    assert(out@ =~= seq![chars@[i as int]] + rest@);
                }
                Some((out, j))
            },
            None => None,
        }
    }
}

} // verus!

verus! {

/// The fold of [`spec_dec_val`] never shrinks below a nonnegative
/// accumulator when it folds digit values.
proof fn lemma_dec_val_ge_acc(s: Seq<char>, i: int, j: int, acc: int)
    requires
        0 <= i <= j <= s.len(),
        acc >= 0,
        forall|x: int| i <= x < j ==> is_digit(s[x]),
    ensures
        spec_dec_val(s, i, j, acc) >= acc,
    decreases j - i,
{
    if i < j {
        assert(is_digit(s[i]));
        lemma_dec_val_ge_acc(s, i + 1, j, acc * 10 + (s[i] as u32 - '0' as u32));
    }
}

/// Decimal digit test.
fn digit_char(c: char) -> (r: bool)
    ensures
        r == is_digit(c),
{
    let v = c as u32;
    0x30 <= v && v <= 0x39
}

/// The position of the first non-digit character at or after `i`.
fn digits_end(chars: &Vec<char>, i: usize) -> (r: usize)
    requires
        i <= chars@.len(),
    ensures
        r == spec_digits_end(chars@, i as int),
        i <= r <= chars@.len(),
        forall|x: int| i <= x < r ==> is_digit(chars@[x]),
        i < chars@.len() && is_digit(chars@[i as int]) ==> r > i,
{
    let n = chars.len();
    let mut k = i;
    while k < n && digit_char(chars[k])
        invariant
            n == chars@.len(),
            i <= k <= n,
            spec_digits_end(chars@, i as int) == spec_digits_end(chars@, k as int),
            forall|x: int| i <= x < k ==> is_digit(chars@[x]),
        decreases n - k,
    {
        k += 1;
    }
    k
}

/// Decodes a JSON integer; see [`spec_parse_int`].
#[verifier::loop_isolation(false)]
fn parse_int(chars: &Vec<char>, i: usize) -> (r: Option<(i64, usize)>)
    requires
        i <= chars@.len(),
    ensures
        match r {
            Some(v) => {
                &&& spec_parse_int(chars@, i as int) == Some((v.0, v.1 as int))
                &&& i < v.1 <= chars@.len()
            },
            None => spec_parse_int(chars@, i as int) is None,
        },
{
    let n = chars.len();
    let neg = i < n && chars[i] == '-';
    let d0 = if neg {
        i + 1
    } else {
        i
    };
    if d0 >= n {
        return None;
    }
    if !digit_char(chars[d0]) {
        return None;
    }
    let e = digits_end(chars, d0);
    if chars[d0] == '0' && e != d0 + 1 {
        return None;
    }
    if e < n && (chars[e] == '.' || chars[e] == 'e' || chars[e] == 'E') {
        return None;
    }
    let mut acc: i128 = 0;
    let mut k = d0;
    while k < e
        invariant
            d0 <= k <= e <= n,
            n == chars@.len(),
            e == spec_digits_end(chars@, d0 as int),
            forall|x: int| d0 <= x < e ==> is_digit(chars@[x]),
            0 <= acc <= i64::MAX as i128 + 1,
            spec_dec_val(chars@, d0 as int, e as int, 0) == spec_dec_val(
                chars@,
                k as int,
                e as int,
                acc as int,
            ),
        decreases e - k,
    {
        let d = chars[k] as u32 - 0x30;
        let acc2: i128 = acc * 10 + d as i128;
        if acc2 > i64::MAX as i128 + 1 {
            proof {
                assert(spec_dec_val(chars@, k as int, e as int, acc as int) == spec_dec_val(
                    chars@,
                    k + 1,
                    e as int,
                    acc * 10 + (chars@[k as int] as u32 - '0' as u32),
                ));
                assert(acc * 10 + (chars@[k as int] as u32 - '0' as u32) == acc2 as int);
                lemma_dec_val_ge_acc(chars@, k + 1, e as int, acc2 as int);
                assert(spec_dec_val(chars@, d0 as int, e as int, 0) >= acc2 as int);
                assert(spec_parse_int(chars@, i as int) is None);
            }
            return None;
        }
        acc = acc2;
        k += 1;
    }
    if neg {
        if acc == i64::MAX as i128 + 1 {
            Some((i64::MIN, e))
        } else {
            Some(((-acc) as i64, e))
        }
    } else {
        if acc > i64::MAX as i128 {
            None
        } else {
            Some((acc as i64, e))
        }
    }
}

/// Decodes one member value; see [`spec_parse_field`].
fn parse_field(chars: &Vec<char>, i: usize) -> (r: Option<(Field, usize)>)
    requires
        i <= chars@.len(),
    ensures
        match r {
            Some(v) => {
                &&& spec_parse_field(chars@, i as int) == Some((v.0@, v.1 as int))
                &&& i < v.1 <= chars@.len()
            },
            None => spec_parse_field(chars@, i as int) is None,
        },
{
    let n = chars.len();
    if i >= n {
        return None;
    }
    let c = chars[i];
    if c == '"' {
        match parse_string_rest(chars, i + 1) {
            Some((v, j)) => Some((Field::Str(v), j)),
            None => None,
        }
    } else if c == '-' || digit_char(c) {
        match parse_int(chars, i) {
            Some((v, j)) => Some((Field::Int(v), j)),
            None => None,
        }
    } else if c == 't' {
        if n - i >= 4 && chars[i + 1] == 'r' && chars[i + 2] == 'u' && chars[i + 3] == 'e' {
            Some((Field::Bool(true), i + 4))
        } else {
            None
        }
    } else if c == 'f' {
        if n - i >= 5 && chars[i + 1] == 'a' && chars[i + 2] == 'l' && chars[i + 3] == 's'
            && chars[i + 4] == 'e' {
            Some((Field::Bool(false), i + 5))
        } else {
            None
        }
    } else if c == 'n' {
        if n - i >= 4 && chars[i + 1] == 'u' && chars[i + 2] == 'l' && chars[i + 3] == 'l' {
            Some((Field::Null, i + 4))
        } else {
            None
        }
    } else {
        None
    }
}

/// Decodes a member list; see [`spec_parse_members`].
fn parse_members(chars: &Vec<char>, i: usize) -> (r: Option<(Vec<(String, Field)>, usize)>)
    requires
        i <= chars@.len(),
    ensures
        match r {
            Some(v) => {
                &&& spec_parse_members(chars@, i as int) == Some((members_view(v.0@), v.1 as int))
                &&& i < v.1 <= chars@.len()
            },
            None => spec_parse_members(chars@, i as int) is None,
        },
    decreases chars@.len() - i,
{
    let n = chars.len();
    if !(i < n && chars[i] == '"') {
        return None;
    }
    match parse_string_rest(chars, i + 1) {
        None => None,
        Some((key, j)) => {
            let ghost kv = key@;
            let k = skip_ws(chars, j);
            if !(k < n && chars[k] == ':') {
                return None;
            }
            let m = skip_ws(chars, k + 1);
            match parse_field(chars, m) {
                None => None,
                Some((v, e)) => {
                    let ghost vv = v@;
                    let w = skip_ws(chars, e);
                    if w < n && chars[w] == ',' {
                        let next = skip_ws(chars, w + 1);
                        match parse_members(chars, next) {
                            Some((rest, z)) => {
                                let ghost restv = rest@;
                                let mut out: Vec<(String, Field)> = Vec::new();
                                out.push((key, v));
                                let mut tail = rest;
                                out.append(&mut tail);
                                proof {
                                    assert(members_view(out@) =~= seq![(kv, vv)] + members_view(
                                        restv,
                                    ));
                                }
                                Some((out, z))
                            },
                            None => None,
                        }
                    } else if w < n && chars[w] == '}' {
                        let mut out: Vec<(String, Field)> = Vec::new();
                        out.push((key, v));
                        proof {
                            assert(members_view(out@) =~= seq![(kv, vv)]);
                        }
                        Some((out, w + 1))
                    } else {
                        None
                    }
                },
            }
        },
    }
}

/// Decodes a whole response body as one flat JSON object; see
/// [`spec_parse_object`].
pub fn parse_object(body: &str) -> (r: Option<Vec<(String, Field)>>)
    ensures
        match r {
            Some(ms) => spec_parse_object(body@) == Some(members_view(ms@)),
            None => spec_parse_object(body@) is None,
        },
{
    let chars = str_chars(body);
    let n = chars.len();
    let i = skip_ws(&chars, 0);
    if !(i < n && chars[i] == '{') {
        return None;
    }
    let j = skip_ws(&chars, i + 1);
    if j < n && chars[j] == '}' {
        if skip_ws(&chars, j + 1) == n {
            let out: Vec<(String, Field)> = Vec::new();
            proof {
                assert(members_view(out@) =~= Seq::<(Seq<char>, FieldV)>::empty());
            }
            Some(out)
        } else {
            None
        }
    } else {
        match parse_members(&chars, j) {
            Some((ms, e)) => {
                if skip_ws(&chars, e) == n {
                    Some(ms)
                } else {
                    None
                }
            },
            None => None,
        }
    }
}

/// The value of the first member named `name`, if any.
pub fn field_of<'a>(ms: &'a Vec<(String, Field)>, name: &str) -> (r: Option<&'a Field>)
    ensures
        match r {
            Some(f) => spec_field_of(members_view(ms@), name@) == Some(f@),
            None => spec_field_of(members_view(ms@), name@) is None,
        },
{
    let needle = String::from_str(name);
    proof {
        assert(members_view(ms@).skip(0) =~= members_view(ms@));
    }
    let mut i: usize = 0;
    while i < ms.len()
        invariant
            needle@ == name@,
            i <= ms@.len(),
            spec_field_of(members_view(ms@), name@) == spec_field_of(
                members_view(ms@).skip(i as int),
                name@,
            ),
        decreases ms@.len() - i,
    {
        proof {
            let mv = members_view(ms@);
            assert(mv[i as int] == (ms@[i as int].0@, ms@[i as int].1@));
            assert(mv.skip(i as int).len() == mv.len() - i);
            assert(mv.skip(i as int)[0] == mv[i as int]);
            assert(mv.skip(i as int).drop_first() =~= mv.skip(i + 1));
        }
        if ms[i].0 == needle {
            return Some(&ms[i].1);
        }
        i += 1;
    }
    proof {
        assert(members_view(ms@).skip(ms@.len() as int) =~= Seq::<(Seq<char>, FieldV)>::empty());
    }
    None
}

} // verus!

verus! {

/// Escaping distributes over concatenation.
proof fn lemma_escape_string_app(a: Seq<char>, b: Seq<char>)
    ensures
        escape_string(a + b) == escape_string(a) + escape_string(b),
    decreases b.len(),
{
    if b.len() == 0 {
        assert(a + b =~= a);
        assert(escape_string(a) + escape_string(b) =~= escape_string(a));
    } else {
        assert((a + b).drop_last() =~= a + b.drop_last());
        assert((a + b).last() == b.last());
        lemma_escape_string_app(a, b.drop_last());
        assert(escape_string(a + b) =~= escape_string(a) + escape_string(b));
    }
}

/// Escaping a single character is that character's escape.
proof fn lemma_escape_string_single(c: char)
    ensures
        escape_string(seq![c]) == escape_char(c),
{
    let single = seq![c];
    assert(single.drop_last() =~= Seq::<char>::empty());
    assert(escape_string(Seq::<char>::empty()) == Seq::<char>::empty());
    assert(single.last() == c);
    assert(Seq::<char>::empty() + escape_char(c) =~= escape_char(c));
}

/// Hexadecimal digits round-trip through their characters.
proof fn lemma_hex_round_trip(n: u32)
    requires
        n < 16,
    ensures
        hex_value(hex_char(n)) == Some(n),
{
}

/// The decoder consumes an escaped text followed by a closing quote and
/// yields back exactly the original text.
#[verifier::rlimit(60)]
proof fn lemma_escape_parse(d: Seq<char>, i: int, s: Seq<char>)
    requires
        0 <= i,
        i + escape_string(s).len() + 1 <= d.len(),
        d.subrange(i, i + escape_string(s).len() + 1) == escape_string(s) + seq!['"'],
    ensures
        spec_parse_string_rest(d, i) == Some((s, i + escape_string(s).len() + 1)),
    decreases s.len(),
{
    let es = escape_string(s);
    let block = es + seq!['"'];
    assert forall|k: int| 0 <= k < block.len() implies d[i + k] == #[trigger] block[k] by {
        assert(block[k] == d.subrange(i, i + es.len() + 1)[k]);
        assert(d.subrange(i, i + es.len() + 1)[k] == d[i + k]);
    }
    if s.len() == 0 {
        assert(block[0] == '"');
        assert(d[i + 0] == block[0]);
    } else {
        let c = s[0];
        let rest = s.drop_first();
        assert(seq![c] + rest =~= s);
        lemma_escape_string_app(seq![c], rest);
        lemma_escape_string_single(c);
        let e = escape_char(c);
        assert(escape_string(s) == escape_string(seq![c] + rest));
        assert(es == e + escape_string(rest));
        let j = i + e.len();
        let rest_block = escape_string(rest) + seq!['"'];
        assert(block =~= e + rest_block);
        assert forall|k: int| 0 <= k < e.len() implies d[i + k] == #[trigger] e[k] by {
            assert(block[k] == e[k]);
            assert(d[i + k] == block[k]);
        }
        assert(d.subrange(j, j + rest_block.len()) =~= rest_block) by {
            assert forall|k: int| 0 <= k < rest_block.len() implies #[trigger] d.subrange(
                j,
                j + rest_block.len(),
            )[k] == rest_block[k] by {
                assert(block[e.len() + k] == rest_block[k]);
                assert(d[i + (e.len() + k)] == block[e.len() + k]);
            }
        }
        lemma_escape_parse(d, j, rest);
        if c == '"' || c == '\\' {
            assert(d[i] == '\\' && d[i + 1] == c);
            assert(unescaped(c) == c);
            assert(spec_parse_string_rest(d, i) == Some((seq![c] + rest, i + es.len() + 1)));
        } else if c == '\u{8}' || c == '\t' || c == '\n' || c == '\u{c}' || c == '\r' {
            assert(d[i] == '\\');
            assert(unescaped(d[i + 1]) == c);
            assert(spec_parse_string_rest(d, i) == Some((seq![c] + rest, i + es.len() + 1)));
        } else if (c as u32) < 0x20 {
            assert(d[i] == '\\' && d[i + 1] == 'u' && d[i + 2] == '0' && d[i + 3] == '0');
            assert(d[i + 4] == hex_char((c as u32) / 16) && d[i + 5] == hex_char((c as u32) % 16));
            lemma_hex_round_trip((c as u32) / 16);
            lemma_hex_round_trip((c as u32) % 16);
            assert(spec_hex4(d, i + 2) == Some(c as u32));
            vstd::utf8::char_u32_cast(c, c as u32);
            assert(spec_parse_string_rest(d, i) == Some((seq![c] + rest, i + es.len() + 1)));
        } else {
            assert(d[i] == c);
            assert(spec_parse_string_rest(d, i) == Some((seq![c] + rest, i + es.len() + 1)));
        }
    }
}

/// The decoder inverts the emitter: a JSON string literal written by
/// [`quoted`], wherever it stands in a document, decodes to exactly the text
/// it was given, and consumes exactly the literal.
pub proof fn lemma_quoted_round_trip(s: Seq<char>, tail: Seq<char>)
    ensures
        spec_parse_string_rest(quoted(s) + tail, 1) == Some(
            (s, 1 + escape_string(s).len() as int + 1),
        ),
{
    let d = quoted(s) + tail;
    assert(d.subrange(1, 1 + escape_string(s).len() as int + 1) =~= escape_string(s)
        + seq!['"']);
    lemma_escape_parse(d, 1, s);
}

} // verus!

//! The JSON dialect both wire protocols speak: objects with string keys whose
//! values are strings or one-level string-to-string objects. Encoding is
//! canonical (no whitespace, fields in a fixed order); decoding tolerates
//! whitespace between tokens and the standard string escapes.

use vstd::prelude::*;

verus! {

/// A decoded JSON value: a string, or a flat object of string fields.
pub enum JsonVal {
    S(String),
    O(Vec<(String, String)>),
}

/// Mathematical image of a `JsonVal`.
pub enum JsonValModel {
    S(Seq<char>),
    O(Seq<(Seq<char>, Seq<char>)>),
}

pub open spec fn pairs_model(v: Seq<(String, String)>) -> Seq<(Seq<char>, Seq<char>)> {
    v.map_values(|p: (String, String)| (p.0@, p.1@))
}

impl View for JsonVal {
    type V = JsonValModel;

    open spec fn view(&self) -> JsonValModel {
        match self {
            JsonVal::S(s) => JsonValModel::S(s@),
            JsonVal::O(m) => JsonValModel::O(pairs_model(m@)),
        }
    }
}

pub open spec fn is_ws_char(c: char) -> bool {
    c == ' ' || c == '\t' || c == '\n' || c == '\r'
}

/// Leading whitespace removed.
pub open spec fn spec_skip_ws(s: Seq<char>) -> Seq<char>
    decreases s.len(),
{
    if s.len() > 0 && is_ws_char(s[0]) {
        spec_skip_ws(s.drop_first())
    } else {
        s
    }
}

pub proof fn lemma_skip_ws_len(s: Seq<char>)
    ensures
        spec_skip_ws(s).len() <= s.len(),
    decreases s.len(),
{
    if s.len() > 0 && is_ws_char(s[0]) {
        lemma_skip_ws_len(s.drop_first());
    }
}

/// Skipping whitespace does nothing when the input does not start with any.
pub proof fn lemma_skip_ws_noop(s: Seq<char>)
    requires
        s.len() == 0 || !is_ws_char(s[0]),
    ensures
        spec_skip_ws(s) == s,
{
}

/// Turns a string slice into its sequence of characters.
pub fn to_chars(s: &str) -> (r: Vec<char>)
    ensures
        r@ == s@,
{
    let n = s.unicode_len();
    let mut r: Vec<char> = Vec::new();
    let mut i: usize = 0;
    while i < n
        invariant
            i <= n,
            n == s@.len(),
            r@ == s@.subrange(0, i as int),
        decreases n - i,
    {
        r.push(s.get_char(i));
        i = i + 1;
        assert(r@ =~= s@.subrange(0, i as int));
    }
    assert(r@ =~= s@);
    r
}

/// Character-wise string equality, stated over the views.
pub fn str_eq(a: &str, b: &str) -> (r: bool)
    ensures
        r == (a@ == b@),
{
    let na = a.unicode_len();
    let nb = b.unicode_len();
    if na != nb {
        assert(a@ != b@);
        return false;
    }
    let mut i: usize = 0;
    while i < na
        invariant
            i <= na,
            na == a@.len(),
            na == b@.len(),
            a@.subrange(0, i as int) == b@.subrange(0, i as int),
        decreases na - i,
    {
        let ca = a.get_char(i);
        let cb = b.get_char(i);
        if ca != cb {
            assert(a@ != b@);
            return false;
        }
        assert(a@.subrange(0, i + 1) =~= a@.subrange(0, i as int).push(a@[i as int]));
        assert(b@.subrange(0, i + 1) =~= b@.subrange(0, i as int).push(b@[i as int]));
        i = i + 1;
    }
    assert(a@ =~= a@.subrange(0, na as int));
    assert(b@ =~= b@.subrange(0, na as int));
    true
}

/// Relies on `String::push`: appends exactly the one character.
#[verifier::external_body]
pub(crate) fn push_char(s: &mut String, c: char)
    ensures
        final(s)@ == old(s)@.push(c),
{
    s.push(c);
}

/// The character standing for a hex digit value below sixteen.
pub open spec fn spec_hex_char(v: u32) -> char {
    if v < 10 {
        (48 + v) as char
    } else {
        (87 + v) as char
    }
}

/// The value of a hex digit character, upper or lower case.
pub open spec fn spec_hex_val(c: char) -> Option<u32> {
    let v = c as u32;
    if 48 <= v && v <= 57 {
        Some((v - 48) as u32)
    } else if 97 <= v && v <= 102 {
        Some((v - 87) as u32)
    } else if 65 <= v && v <= 70 {
        Some((v - 55) as u32)
    } else {
        None
    }
}

pub proof fn lemma_hex_inverse(v: u32)
    requires
        v < 16,
    ensures
        spec_hex_val(spec_hex_char(v)) == Some(v),
{
    if v < 10 {
        assert(((48 + v) as char) as u32 == 48 + v);
    } else {
        assert(((87 + v) as char) as u32 == 87 + v);
    }
}

/// How one character is written inside a JSON string: quote and backslash get
/// a backslash, control characters a `\u00XX` escape, all else stands as is.
pub open spec fn spec_escape_char(c: char) -> Seq<char> {
    if c == '"' {
        seq!['\\', '"']
    } else if c == '\\' {
        seq!['\\', '\\']
    } else if (c as u32) < 32 {
        seq!['\\', 'u', '0', '0', spec_hex_char((c as u32) / 16), spec_hex_char((c as u32) % 16)]
    } else {
        seq![c]
    }
}

/// A whole string escaped for a JSON string body.
pub open spec fn spec_escape(s: Seq<char>) -> Seq<char>
    decreases s.len(),
{
    if s.len() == 0 {
        Seq::empty()
    } else {
        spec_escape_char(s[0]) + spec_escape(s.drop_first())
    }
}

pub proof fn lemma_escape_snoc(s: Seq<char>, c: char)
    ensures
        spec_escape(s.push(c)) == spec_escape(s) + spec_escape_char(c),
    decreases s.len(),
{
    if s.len() == 0 {
        assert(s.push(c)[0] == c);
        assert(s.push(c).drop_first() =~= Seq::<char>::empty());
        assert(spec_escape(s.push(c).drop_first()) == Seq::<char>::empty());
        assert(spec_escape(s.push(c)) == spec_escape_char(c) + Seq::<char>::empty());
        assert(spec_escape_char(c) + Seq::<char>::empty() =~= spec_escape_char(c));
        assert(spec_escape(s) + spec_escape_char(c) =~= spec_escape_char(c));
    } else {
        assert(s.push(c).drop_first() =~= s.drop_first().push(c));
        assert(s.push(c)[0] == s[0]);
        lemma_escape_snoc(s.drop_first(), c);
        assert(spec_escape_char(s[0]) + (spec_escape(s.drop_first()) + spec_escape_char(c)) =~= (
        spec_escape_char(s[0]) + spec_escape(s.drop_first())) + spec_escape_char(c));
    }
}

/// The character a short escape such as `\n` stands for.
pub open spec fn spec_unescape_short(c: char) -> Option<char> {
    if c == '"' {
        Some('"')
    } else if c == '\\' {
        Some('\\')
    } else if c == '/' {
        Some('/')
    } else if c == 'b' {
        Some('\u{8}')
    } else if c == 'f' {
        Some('\u{c}')
    } else if c == 'n' {
        Some('\n')
    } else if c == 'r' {
        Some('\r')
    } else if c == 't' {
        Some('\t')
    } else {
        None
    }
}

/// A Unicode scalar value: what a `char` may hold.
pub open spec fn is_scalar_value(v: u32) -> bool {
    v < 0xD800 || (0xE000 <= v && v <= 0x10FFFF)
}

/// The character a `\uXXXX` escape stands for, given its four hex digits.
pub open spec fn spec_unescape_u(c1: char, c2: char, c3: char, c4: char) -> Option<char> {
    match (spec_hex_val(c1), spec_hex_val(c2), spec_hex_val(c3), spec_hex_val(c4)) {
        (Some(h1), Some(h2), Some(h3), Some(h4)) => {
            let v = ((h1 * 4096 + h2 * 256 + h3 * 16 + h4) as u32);
            if is_scalar_value(v) {
                Some(v as char)
            } else {
                None
            }
        },
        _ => None,
    }
}

/// Reads a JSON string body after the opening quote: the decoded characters
/// and the remainder after the closing quote. Raw control characters and
/// unknown or truncated escapes refuse the string.
pub open spec fn spec_parse_string_body(s: Seq<char>) -> Option<(Seq<char>, Seq<char>)>
    decreases s.len(),
{
    if s.len() == 0 {
        None
    } else if s[0] == '"' {
        Some((Seq::empty(), s.skip(1)))
    } else if s[0] == '\\' {
        if s.len() < 2 {
            None
        } else if s[1] == 'u' {
            if s.len() < 6 {
                None
            } else {
                match spec_unescape_u(s[2], s[3], s[4], s[5]) {
                    None => None,
                    Some(c) => match spec_parse_string_body(s.skip(6)) {
                        None => None,
                        Some((t, r)) => Some((seq![c] + t, r)),
                    },
                }
            }
        } else {
            match spec_unescape_short(s[1]) {
                None => None,
                Some(c) => match spec_parse_string_body(s.skip(2)) {
                    None => None,
                    Some((t, r)) => Some((seq![c] + t, r)),
                },
            }
        }
    } else if (s[0] as u32) < 32 {
        None
    } else {
        match spec_parse_string_body(s.skip(1)) {
            None => None,
            Some((t, r)) => Some((seq![s[0]] + t, r)),
        }
    }
}

pub proof fn lemma_parse_string_body_len(s: Seq<char>)
    ensures
        spec_parse_string_body(s) matches Some((t, r)) ==> r.len() < s.len(),
    decreases s.len(),
{
    if s.len() == 0 {
    } else if s[0] == '"' {
    } else if s[0] == '\\' {
        if s.len() >= 6 {
            lemma_parse_string_body_len(s.skip(6));
        }
        if s.len() >= 2 {
            lemma_parse_string_body_len(s.skip(2));
        }
    } else {
        lemma_parse_string_body_len(s.skip(1));
    }
}

/// Reads a JSON string, opening quote included.
pub open spec fn spec_parse_string(s: Seq<char>) -> Option<(Seq<char>, Seq<char>)> {
    if s.len() > 0 && s[0] == '"' {
        spec_parse_string_body(s.skip(1))
    } else {
        None
    }
}

pub proof fn lemma_parse_string_len(s: Seq<char>)
    ensures
        spec_parse_string(s) matches Some((t, r)) ==> r.len() < s.len(),
{
    if s.len() > 0 && s[0] == '"' {
        lemma_parse_string_body_len(s.skip(1));
    }
}

/// Reads `key:value` pairs of a flat (string-valued) object, the position
/// standing at the first key's quote, up to and including the closing brace.
pub open spec fn spec_parse_flat_pairs(s: Seq<char>) -> Option<
    (Seq<(Seq<char>, Seq<char>)>, Seq<char>),
>
    decreases s.len(),
        via spec_parse_flat_pairs_decreases
{
    match spec_parse_string(s) {
        None => None,
        Some((k, r1)) => {
            let r2 = spec_skip_ws(r1);
            if r2.len() == 0 || r2[0] != ':' {
                None
            } else {
                let r3 = spec_skip_ws(r2.skip(1));
                match spec_parse_string(r3) {
                    None => None,
                    Some((v, r4)) => {
                        let r5 = spec_skip_ws(r4);
                        if r5.len() == 0 {
                            None
                        } else if r5[0] == ',' {
                            let r6 = spec_skip_ws(r5.skip(1));
                            match spec_parse_flat_pairs(r6) {
                                None => None,
                                Some((t, r)) => Some((seq![(k, v)] + t, r)),
                            }
                        } else if r5[0] == '}' {
                            Some((seq![(k, v)], r5.skip(1)))
                        } else {
                            None
                        }
                    },
                }
            }
        },
    }
}

#[via_fn]
proof fn spec_parse_flat_pairs_decreases(s: Seq<char>) {
    lemma_parse_string_len(s);
    if let Some((k, r1)) = spec_parse_string(s) {
        lemma_skip_ws_len(r1);
        let r2 = spec_skip_ws(r1);
        if r2.len() > 0 && r2[0] == ':' {
            lemma_skip_ws_len(r2.skip(1));
            let r3 = spec_skip_ws(r2.skip(1));
            lemma_parse_string_len(r3);
            if let Some((v, r4)) = spec_parse_string(r3) {
                lemma_skip_ws_len(r4);
                let r5 = spec_skip_ws(r4);
                if r5.len() > 0 && r5[0] == ',' {
                    lemma_skip_ws_len(r5.skip(1));
                }
            }
        }
    }
}

pub proof fn lemma_parse_flat_pairs_len(s: Seq<char>)
    ensures
        spec_parse_flat_pairs(s) matches Some((t, r)) ==> r.len() < s.len(),
    decreases s.len(),
{
    lemma_parse_string_len(s);
    if let Some((k, r1)) = spec_parse_string(s) {
        lemma_skip_ws_len(r1);
        let r2 = spec_skip_ws(r1);
        if r2.len() > 0 && r2[0] == ':' {
            lemma_skip_ws_len(r2.skip(1));
            let r3 = spec_skip_ws(r2.skip(1));
            lemma_parse_string_len(r3);
            if let Some((v, r4)) = spec_parse_string(r3) {
                lemma_skip_ws_len(r4);
                let r5 = spec_skip_ws(r4);
                if r5.len() > 0 && r5[0] == ',' {
                    lemma_skip_ws_len(r5.skip(1));
                    lemma_parse_flat_pairs_len(spec_skip_ws(r5.skip(1)));
                }
            }
        }
    }
}

/// Reads a flat object from its opening brace.
pub open spec fn spec_parse_flat_object(s: Seq<char>) -> Option<
    (Seq<(Seq<char>, Seq<char>)>, Seq<char>),
> {
    if s.len() > 0 && s[0] == '{' {
        let r1 = spec_skip_ws(s.skip(1));
        if r1.len() > 0 && r1[0] == '}' {
            Some((Seq::empty(), r1.skip(1)))
        } else {
            spec_parse_flat_pairs(r1)
        }
    } else {
        None
    }
}

pub proof fn lemma_parse_flat_object_len(s: Seq<char>)
    ensures
        spec_parse_flat_object(s) matches Some((t, r)) ==> r.len() < s.len(),
{
    if s.len() > 0 && s[0] == '{' {
        lemma_skip_ws_len(s.skip(1));
        lemma_parse_flat_pairs_len(spec_skip_ws(s.skip(1)));
    }
}

/// Reads one value: a string or a flat object.
pub open spec fn spec_parse_value(s: Seq<char>) -> Option<(JsonValModel, Seq<char>)> {
    if s.len() == 0 {
        None
    } else if s[0] == '"' {
        match spec_parse_string(s) {
            None => None,
            Some((t, r)) => Some((JsonValModel::S(t), r)),
        }
    } else if s[0] == '{' {
        match spec_parse_flat_object(s) {
            None => None,
            Some((m, r)) => Some((JsonValModel::O(m), r)),
        }
    } else {
        None
    }
}

pub proof fn lemma_parse_value_len(s: Seq<char>)
    ensures
        spec_parse_value(s) matches Some((t, r)) ==> r.len() < s.len(),
{
    lemma_parse_string_len(s);
    lemma_parse_flat_object_len(s);
}

/// Reads `key:value` pairs of the outer object, the position standing at the
/// first key's quote, up to and including the closing brace.
pub open spec fn spec_parse_top_pairs(s: Seq<char>) -> Option<
    (Seq<(Seq<char>, JsonValModel)>, Seq<char>),
>
    decreases s.len(),
        via spec_parse_top_pairs_decreases
{
    match spec_parse_string(s) {
        None => None,
        Some((k, r1)) => {
            let r2 = spec_skip_ws(r1);
            if r2.len() == 0 || r2[0] != ':' {
                None
            } else {
                let r3 = spec_skip_ws(r2.skip(1));
                match spec_parse_value(r3) {
                    None => None,
                    Some((v, r4)) => {
                        let r5 = spec_skip_ws(r4);
                        if r5.len() == 0 {
                            None
                        } else if r5[0] == ',' {
                            let r6 = spec_skip_ws(r5.skip(1));
                            match spec_parse_top_pairs(r6) {
                                None => None,
                                Some((t, r)) => Some((seq![(k, v)] + t, r)),
                            }
                        } else if r5[0] == '}' {
                            Some((seq![(k, v)], r5.skip(1)))
                        } else {
                            None
                        }
                    },
                }
            }
        },
    }
}

#[via_fn]
proof fn spec_parse_top_pairs_decreases(s: Seq<char>) {
    lemma_parse_string_len(s);
    if let Some((k, r1)) = spec_parse_string(s) {
        lemma_skip_ws_len(r1);
        let r2 = spec_skip_ws(r1);
        if r2.len() > 0 && r2[0] == ':' {
            lemma_skip_ws_len(r2.skip(1));
            let r3 = spec_skip_ws(r2.skip(1));
            lemma_parse_value_len(r3);
            if let Some((v, r4)) = spec_parse_value(r3) {
                lemma_skip_ws_len(r4);
                let r5 = spec_skip_ws(r4);
                if r5.len() > 0 && r5[0] == ',' {
                    lemma_skip_ws_len(r5.skip(1));
                }
            }
        }
    }
}

/// Reads the outer object from its opening brace.
pub open spec fn spec_parse_top_object(s: Seq<char>) -> Option<
    (Seq<(Seq<char>, JsonValModel)>, Seq<char>),
> {
    if s.len() > 0 && s[0] == '{' {
        let r1 = spec_skip_ws(s.skip(1));
        if r1.len() > 0 && r1[0] == '}' {
            Some((Seq::empty(), r1.skip(1)))
        } else {
            spec_parse_top_pairs(r1)
        }
    } else {
        None
    }
}

/// Reads a whole document: one object, nothing but whitespace around it.
pub open spec fn spec_parse_doc(s: Seq<char>) -> Option<Seq<(Seq<char>, JsonValModel)>> {
    match spec_parse_top_object(spec_skip_ws(s)) {
        None => None,
        Some((ps, r)) => if spec_skip_ws(r).len() == 0 {
            Some(ps)
        } else {
            None
        },
    }
}

/// The value of the last field named `k`, as a JSON object's repeated fields
/// read last-one-wins.
pub open spec fn spec_field(ps: Seq<(Seq<char>, JsonValModel)>, k: Seq<char>) -> Option<
    JsonValModel,
>
    decreases ps.len(),
{
    if ps.len() == 0 {
        None
    } else if ps.last().0 == k {
        Some(ps.last().1)
    } else {
        spec_field(ps.drop_last(), k)
    }
}

/// The value of the last pair with key `k` in a flat object.
pub open spec fn spec_flat_field(ps: Seq<(Seq<char>, Seq<char>)>, k: Seq<char>) -> Option<Seq<char>>
    decreases ps.len(),
{
    if ps.len() == 0 {
        None
    } else if ps.last().0 == k {
        Some(ps.last().1)
    } else {
        spec_flat_field(ps.drop_last(), k)
    }
}

fn is_ws(c: char) -> (r: bool)
    ensures
        r == is_ws_char(c),
{
    c == ' ' || c == '\t' || c == '\n' || c == '\r'
}

fn hex_val(c: char) -> (r: Option<u32>)
    ensures
        r == spec_hex_val(c),
{
    let v = c as u32;
    if 48 <= v && v <= 57 {
        Some(v - 48)
    } else if 97 <= v && v <= 102 {
        Some(v - 87)
    } else if 65 <= v && v <= 70 {
        Some(v - 55)
    } else {
        None
    }
}

fn unescape_short(c: char) -> (r: Option<char>)
    ensures
        r == spec_unescape_short(c),
{
    if c == '"' {
        Some('"')
    } else if c == '\\' {
        Some('\\')
    } else if c == '/' {
        Some('/')
    } else if c == 'b' {
        Some('\u{8}')
    } else if c == 'f' {
        Some('\u{c}')
    } else if c == 'n' {
        Some('\n')
    } else if c == 'r' {
        Some('\r')
    } else if c == 't' {
        Some('\t')
    } else {
        None
    }
}

/// Relies on `char::from_u32`: `Some` exactly on Unicode scalar values,
/// holding the character with that value.
#[verifier::external_body]
fn char_from_u32(v: u32) -> (r: Option<char>)
    ensures
        r matches Some(c) ==> c as u32 == v,
        (r is Some) == is_scalar_value(v),
{
    char::from_u32(v)
}

/// Moves the position past any whitespace.
pub fn skip_ws(s: &Vec<char>, i: usize) -> (j: usize)
    requires
        i <= s@.len(),
    ensures
        i <= j <= s@.len(),
        s@.skip(j as int) == spec_skip_ws(s@.skip(i as int)),
{
    let mut j = i;
    while j < s.len() && is_ws(s[j])
        invariant
            i <= j <= s@.len(),
            spec_skip_ws(s@.skip(i as int)) == spec_skip_ws(s@.skip(j as int)),
        decreases s@.len() - j,
    {
        assert(s@.skip(j as int)[0] == s@[j as int]);
        assert(s@.skip(j as int).drop_first() =~= s@.skip(j + 1));
        j = j + 1;
    }
    proof {
        lemma_skip_ws_noop(s@.skip(j as int));
    }
    j
}

/// Reads a JSON string starting at `i`; on success returns its decoded
/// characters and the position after the closing quote.
pub fn parse_string(s: &Vec<char>, i: usize) -> (r: Option<(String, usize)>)
    requires
        i <= s@.len(),
    ensures
        match r {
            Some(p) => i < p.1 <= s@.len() && spec_parse_string(s@.skip(i as int)) == Some(
                (p.0@, s@.skip(p.1 as int)),
            ),
            None => spec_parse_string(s@.skip(i as int)) is None,
        },
{
    if i >= s.len() || s[i] != '"' {
        return None;
    }
    assert(s@.skip(i as int)[0] == s@[i as int]);
    assert(s@.skip(i as int).skip(1) =~= s@.skip(i + 1));
    let mut out = String::new();
    let mut cur: usize = i + 1;
    loop
        invariant
            i + 1 <= cur <= s@.len(),
            spec_parse_string(s@.skip(i as int)) == spec_parse_string_body(s@.skip(i + 1)),
            spec_parse_string_body(s@.skip(i + 1)) == (match spec_parse_string_body(
                s@.skip(cur as int),
            ) {
                None => None::<(Seq<char>, Seq<char>)>,
                Some((t, r)) => Some((out@ + t, r)),
            }),
        decreases s@.len() - cur,
    {
        if cur >= s.len() {
            return None;
        }
        let c = s[cur];
        assert(s@.skip(cur as int)[0] == c);
        if c == '"' {
            assert(s@.skip(cur as int).skip(1) =~= s@.skip(cur + 1));
            assert(out@ + Seq::<char>::empty() =~= out@);
            return Some((out, cur + 1));
        } else if c == '\\' {
            if cur + 1 >= s.len() {
                return None;
            }
            let e = s[cur + 1];
            assert(s@.skip(cur as int)[1] == e);
            if e == 'u' {
                if s.len() - cur < 6 {
                    return None;
                }
                assert(s@.skip(cur as int)[2] == s@[cur + 2]);
                assert(s@.skip(cur as int)[3] == s@[cur + 3]);
                assert(s@.skip(cur as int)[4] == s@[cur + 4]);
                assert(s@.skip(cur as int)[5] == s@[cur + 5]);
                let h1 = hex_val(s[cur + 2]);
                let h2 = hex_val(s[cur + 3]);
                let h3 = hex_val(s[cur + 4]);
                let h4 = hex_val(s[cur + 5]);
                match (h1, h2, h3, h4) {
                    (Some(a), Some(b), Some(cc), Some(d)) => {
                        let v: u32 = a * 4096 + b * 256 + cc * 16 + d;
                        match char_from_u32(v) {
                            None => {
                                return None;
                            },
                            Some(ch) => {
                                proof {
                                    vstd::utf8::char_u32_cast(ch, v);
                                }
                                let ghost old_out = out@;
                                push_char(&mut out, ch);
                                assert(s@.skip(cur as int).skip(6) =~= s@.skip(cur + 6));
                                proof {
                                    if let Some((t, r)) = spec_parse_string_body(s@.skip(cur + 6)) {
                                        assert(old_out + (seq![ch] + t) =~= old_out.push(ch) + t);
                                    }
                                }
                                cur = cur + 6;
                            },
                        }
                    },
                    _ => {
                        return None;
                    },
                }
            } else {
                match unescape_short(e) {
                    None => {
                        return None;
                    },
                    Some(ch) => {
                        let ghost old_out = out@;
                        push_char(&mut out, ch);
                        assert(s@.skip(cur as int).skip(2) =~= s@.skip(cur + 2));
                        proof {
                            if let Some((t, r)) = spec_parse_string_body(s@.skip(cur + 2)) {
                                assert(old_out + (seq![ch] + t) =~= old_out.push(ch) + t);
                            }
                        }
                        cur = cur + 2;
                    },
                }
            }
        } else if (c as u32) < 32 {
            return None;
        } else {
            let ghost old_out = out@;
            push_char(&mut out, c);
            assert(s@.skip(cur as int).skip(1) =~= s@.skip(cur + 1));
            proof {
                if let Some((t, r)) = spec_parse_string_body(s@.skip(cur + 1)) {
                    assert(old_out + (seq![c] + t) =~= old_out.push(c) + t);
                }
            }
            cur = cur + 1;
        }
    }
}

/// Mathematical image of a parsed document.
pub open spec fn doc_model(v: Seq<(String, JsonVal)>) -> Seq<(Seq<char>, JsonValModel)> {
    v.map_values(|p: (String, JsonVal)| (p.0@, p.1@))
}

/// Reads a flat object starting at its opening brace.
#[verifier::rlimit(60)]
pub fn parse_flat_object(s: &Vec<char>, i: usize) -> (r: Option<(Vec<(String, String)>, usize)>)
    requires
        i <= s@.len(),
    ensures
        match r {
            Some(p) => i < p.1 <= s@.len() && spec_parse_flat_object(s@.skip(i as int)) == Some(
                (pairs_model(p.0@), s@.skip(p.1 as int)),
            ),
            None => spec_parse_flat_object(s@.skip(i as int)) is None,
        },
{
    if i >= s.len() || s[i] != '{' {
        return None;
    }
    assert(s@.skip(i as int)[0] == s@[i as int]);
    assert(s@.skip(i as int).skip(1) =~= s@.skip(i + 1));
    let start = skip_ws(s, i + 1);
    if start < s.len() && s[start] == '}' {
        assert(s@.skip(start as int)[0] == s@[start as int]);
        assert(s@.skip(start as int).skip(1) =~= s@.skip(start + 1));
        let empty: Vec<(String, String)> = Vec::new();
        assert(pairs_model(empty@) =~= Seq::<(Seq<char>, Seq<char>)>::empty());
        return Some((empty, start + 1));
    }
    let mut acc: Vec<(String, String)> = Vec::new();
    let mut cur = start;
    assert(pairs_model(acc@) =~= Seq::<(Seq<char>, Seq<char>)>::empty());
    loop
        invariant
            i < cur <= s@.len(),
            s@.skip(i as int).len() > 0 && s@.skip(i as int)[0] == '{',
            !(spec_skip_ws(s@.skip(i + 1)).len() > 0 && spec_skip_ws(s@.skip(i + 1))[0] == '}'),
            spec_parse_flat_object(s@.skip(i as int)) == spec_parse_flat_pairs(
                spec_skip_ws(s@.skip(i + 1)),
            ),
            spec_parse_flat_pairs(spec_skip_ws(s@.skip(i + 1))) == (match spec_parse_flat_pairs(
                s@.skip(cur as int),
            ) {
                None => None::<(Seq<(Seq<char>, Seq<char>)>, Seq<char>)>,
                Some((t, r)) => Some((pairs_model(acc@) + t, r)),
            }),
        decreases s@.len() - cur,
    {
        let k = match parse_string(s, cur) {
            None => {
                return None;
            },
            Some(p) => p,
        };
        let j2 = skip_ws(s, k.1);
        if j2 >= s.len() || s[j2] != ':' {
            return None;
        }
        assert(s@.skip(j2 as int)[0] == s@[j2 as int]);
        assert(s@.skip(j2 as int).skip(1) =~= s@.skip(j2 + 1));
        let j3 = skip_ws(s, j2 + 1);
        let v = match parse_string(s, j3) {
            None => {
                return None;
            },
            Some(p) => p,
        };
        let j5 = skip_ws(s, v.1);
        if j5 >= s.len() {
            return None;
        }
        let ghost old_acc = acc@;
        let c = s[j5];
        assert(s@.skip(j5 as int)[0] == c);
        if c == ',' {
            assert(s@.skip(j5 as int).skip(1) =~= s@.skip(j5 + 1));
            let j6 = skip_ws(s, j5 + 1);
            acc.push((k.0, v.0));
            proof {
                assert(pairs_model(acc@) =~= pairs_model(old_acc).push((k.0@, v.0@)));
                if let Some((t, r)) = spec_parse_flat_pairs(s@.skip(j6 as int)) {
                    assert(pairs_model(old_acc) + (seq![(k.0@, v.0@)] + t) =~= pairs_model(acc@)
                        + t);
                }
            }
            cur = j6;
        } else if c == '}' {
            assert(s@.skip(j5 as int).skip(1) =~= s@.skip(j5 + 1));
            acc.push((k.0, v.0));
            proof {
                assert(pairs_model(acc@) =~= pairs_model(old_acc).push((k.0@, v.0@)));
                assert(pairs_model(old_acc) + seq![(k.0@, v.0@)] =~= pairs_model(acc@));
            }
            return Some((acc, j5 + 1));
        } else {
            return None;
        }
    }
}

/// Reads one value: a string or a flat object.
pub fn parse_value(s: &Vec<char>, i: usize) -> (r: Option<(JsonVal, usize)>)
    requires
        i <= s@.len(),
    ensures
        match r {
            Some(p) => i < p.1 <= s@.len() && spec_parse_value(s@.skip(i as int)) == Some(
                (p.0@, s@.skip(p.1 as int)),
            ),
            None => spec_parse_value(s@.skip(i as int)) is None,
        },
{
    if i >= s.len() {
        return None;
    }
    let c = s[i];
    assert(s@.skip(i as int)[0] == c);
    if c == '"' {
        match parse_string(s, i) {
            None => None,
            Some(p) => Some((JsonVal::S(p.0), p.1)),
        }
    } else if c == '{' {
        match parse_flat_object(s, i) {
            None => None,
            Some(p) => Some((JsonVal::O(p.0), p.1)),
        }
    } else {
        None
    }
}

/// Reads the outer object starting at its opening brace.
#[verifier::rlimit(60)]
pub fn parse_top_object(s: &Vec<char>, i: usize) -> (r: Option<(Vec<(String, JsonVal)>, usize)>)
    requires
        i <= s@.len(),
    ensures
        match r {
            Some(p) => i < p.1 <= s@.len() && spec_parse_top_object(s@.skip(i as int)) == Some(
                (doc_model(p.0@), s@.skip(p.1 as int)),
            ),
            None => spec_parse_top_object(s@.skip(i as int)) is None,
        },
{
    if i >= s.len() || s[i] != '{' {
        return None;
    }
    assert(s@.skip(i as int)[0] == s@[i as int]);
    assert(s@.skip(i as int).skip(1) =~= s@.skip(i + 1));
    let start = skip_ws(s, i + 1);
    if start < s.len() && s[start] == '}' {
        assert(s@.skip(start as int)[0] == s@[start as int]);
        assert(s@.skip(start as int).skip(1) =~= s@.skip(start + 1));
        let empty: Vec<(String, JsonVal)> = Vec::new();
        assert(doc_model(empty@) =~= Seq::<(Seq<char>, JsonValModel)>::empty());
        return Some((empty, start + 1));
    }
    let mut acc: Vec<(String, JsonVal)> = Vec::new();
    let mut cur = start;
    assert(doc_model(acc@) =~= Seq::<(Seq<char>, JsonValModel)>::empty());
    loop
        invariant
            i < cur <= s@.len(),
            s@.skip(i as int).len() > 0 && s@.skip(i as int)[0] == '{',
            !(spec_skip_ws(s@.skip(i + 1)).len() > 0 && spec_skip_ws(s@.skip(i + 1))[0] == '}'),
            spec_parse_top_object(s@.skip(i as int)) == spec_parse_top_pairs(
                spec_skip_ws(s@.skip(i + 1)),
            ),
            spec_parse_top_pairs(spec_skip_ws(s@.skip(i + 1))) == (match spec_parse_top_pairs(
                s@.skip(cur as int),
            ) {
                None => None::<(Seq<(Seq<char>, JsonValModel)>, Seq<char>)>,
                Some((t, r)) => Some((doc_model(acc@) + t, r)),
            }),
        decreases s@.len() - cur,
    {
        let k = match parse_string(s, cur) {
            None => {
                return None;
            },
            Some(p) => p,
        };
        let j2 = skip_ws(s, k.1);
        if j2 >= s.len() || s[j2] != ':' {
            return None;
        }
        assert(s@.skip(j2 as int)[0] == s@[j2 as int]);
        assert(s@.skip(j2 as int).skip(1) =~= s@.skip(j2 + 1));
        let j3 = skip_ws(s, j2 + 1);
        let v = match parse_value(s, j3) {
            None => {
                return None;
            },
            Some(p) => p,
        };
        let j5 = skip_ws(s, v.1);
        if j5 >= s.len() {
            return None;
        }
        let ghost old_acc = acc@;
        let c = s[j5];
        assert(s@.skip(j5 as int)[0] == c);
        if c == ',' {
            assert(s@.skip(j5 as int).skip(1) =~= s@.skip(j5 + 1));
            let j6 = skip_ws(s, j5 + 1);
            let ghost vm = v.0@;
            let ghost km = k.0@;
            acc.push((k.0, v.0));
            proof {
                assert(doc_model(acc@) =~= doc_model(old_acc).push((km, vm)));
                if let Some((t, r)) = spec_parse_top_pairs(s@.skip(j6 as int)) {
                    assert(doc_model(old_acc) + (seq![(km, vm)] + t) =~= doc_model(acc@) + t);
                }
            }
            cur = j6;
        } else if c == '}' {
            assert(s@.skip(j5 as int).skip(1) =~= s@.skip(j5 + 1));
            let ghost vm = v.0@;
            let ghost km = k.0@;
            acc.push((k.0, v.0));
            proof {
                assert(doc_model(acc@) =~= doc_model(old_acc).push((km, vm)));
                assert(doc_model(old_acc) + seq![(km, vm)] =~= doc_model(acc@));
            }
            return Some((acc, j5 + 1));
        } else {
            return None;
        }
    }
}

/// Reads a whole document: one object, nothing but whitespace around it.
pub fn parse_doc(s: &Vec<char>) -> (r: Option<Vec<(String, JsonVal)>>)
    ensures
        match r {
            Some(ps) => spec_parse_doc(s@) == Some(doc_model(ps@)),
            None => spec_parse_doc(s@) is None,
        },
{
    assert(s@.skip(0) =~= s@);
    let j0 = skip_ws(s, 0);
    let p = match parse_top_object(s, j0) {
        None => {
            return None;
        },
        Some(p) => p,
    };
    let j2 = skip_ws(s, p.1);
    if j2 == s.len() {
        assert(s@.skip(j2 as int).len() == 0);
        Some(p.0)
    } else {
        assert(s@.skip(j2 as int).len() > 0);
        None
    }
}

/// A string as written on the wire, quotes included.
pub open spec fn spec_encode_string(s: Seq<char>) -> Seq<char> {
    seq!['"'] + spec_escape(s) + seq!['"']
}

/// One `key:value` pair of a flat object as written on the wire.
pub open spec fn spec_encode_pair(p: (Seq<char>, Seq<char>)) -> Seq<char> {
    spec_encode_string(p.0) + seq![':'] + spec_encode_string(p.1)
}

/// Every pair after the first, each with its leading comma.
pub open spec fn spec_encode_pairs_tail(m: Seq<(Seq<char>, Seq<char>)>) -> Seq<char>
    decreases m.len(),
{
    if m.len() == 0 {
        Seq::empty()
    } else {
        seq![','] + spec_encode_pair(m[0]) + spec_encode_pairs_tail(m.drop_first())
    }
}

/// A flat object as written on the wire: canonical, without whitespace.
pub open spec fn spec_encode_flat_object(m: Seq<(Seq<char>, Seq<char>)>) -> Seq<char> {
    if m.len() == 0 {
        seq!['{'] + seq!['}']
    } else {
        seq!['{'] + spec_encode_pair(m[0]) + spec_encode_pairs_tail(m.drop_first()) + seq!['}']
    }
}

pub proof fn lemma_encode_tail_snoc(m: Seq<(Seq<char>, Seq<char>)>, p: (Seq<char>, Seq<char>))
    ensures
        spec_encode_pairs_tail(m.push(p)) == spec_encode_pairs_tail(m) + seq![',']
            + spec_encode_pair(p),
    decreases m.len(),
{
    if m.len() == 0 {
        assert(m.push(p).drop_first() =~= Seq::<(Seq<char>, Seq<char>)>::empty());
        assert(m.push(p)[0] == p);
        assert(spec_encode_pairs_tail(Seq::<(Seq<char>, Seq<char>)>::empty())
            == Seq::<char>::empty());
        assert(spec_encode_pairs_tail(m.push(p)) == seq![','] + spec_encode_pair(p)
            + Seq::<char>::empty());
        assert(seq![','] + spec_encode_pair(p) + Seq::<char>::empty() =~= spec_encode_pairs_tail(m)
            + seq![','] + spec_encode_pair(p));
    } else {
        assert(m.push(p).drop_first() =~= m.drop_first().push(p));
        assert(m.push(p)[0] == m[0]);
        lemma_encode_tail_snoc(m.drop_first(), p);
        assert(seq![','] + spec_encode_pair(m[0]) + (spec_encode_pairs_tail(m.drop_first())
            + seq![','] + spec_encode_pair(p)) =~= (seq![','] + spec_encode_pair(m[0])
            + spec_encode_pairs_tail(m.drop_first())) + seq![','] + spec_encode_pair(p));
    }
}

fn hex_char(v: u32) -> (c: char)
    requires
        v < 16,
    ensures
        c == spec_hex_char(v),
{
    if v < 10 {
        ((48 + v) as u8) as char
    } else {
        ((87 + v) as u8) as char
    }
}

/// Appends `s` escaped for a JSON string body.
fn append_escaped(out: &mut String, s: &str)
    ensures
        final(out)@ == old(out)@ + spec_escape(s@),
{
    let n = s.unicode_len();
    let mut i: usize = 0;
    assert(old(out)@ + spec_escape(s@.subrange(0, 0)) =~= old(out)@);
    while i < n
        invariant
            i <= n,
            n == s@.len(),
            out@ == old(out)@ + spec_escape(s@.subrange(0, i as int)),
        decreases n - i,
    {
        let c = s.get_char(i);
        let ghost pre = out@;
        if c == '"' {
            push_char(out, '\\');
            push_char(out, '"');
            assert(out@ =~= pre + spec_escape_char(c));
        } else if c == '\\' {
            push_char(out, '\\');
            push_char(out, '\\');
            assert(out@ =~= pre + spec_escape_char(c));
        } else if (c as u32) < 32 {
            let v = c as u32;
            push_char(out, '\\');
            push_char(out, 'u');
            push_char(out, '0');
            push_char(out, '0');
            push_char(out, hex_char(v / 16));
            push_char(out, hex_char(v % 16));
            assert(out@ =~= pre + spec_escape_char(c));
        } else {
            push_char(out, c);
            assert(out@ =~= pre + spec_escape_char(c));
        }
        proof {
            assert(s@.subrange(0, i + 1) =~= s@.subrange(0, i as int).push(s@[i as int]));
            lemma_escape_snoc(s@.subrange(0, i as int), s@[i as int]);
            assert(out@ =~= old(out)@ + spec_escape(s@.subrange(0, i + 1)));
        }
        i = i + 1;
    }
    assert(s@.subrange(0, n as int) =~= s@);
}

/// Appends `s` as a JSON string, quotes included.
pub(crate) fn append_json_string(out: &mut String, s: &str)
    ensures
        final(out)@ == old(out)@ + spec_encode_string(s@),
{
    let ghost pre = out@;
    push_char(out, '"');
    append_escaped(out, s);
    push_char(out, '"');
    assert(out@ =~= pre + spec_encode_string(s@));
}

/// Appends a flat object in canonical form.
pub(crate) fn append_flat_object(out: &mut String, m: &Vec<(String, String)>)
    ensures
        final(out)@ == old(out)@ + spec_encode_flat_object(pairs_model(m@)),
{
    let ghost gm = pairs_model(m@);
    let ghost pre = out@;
    push_char(out, '{');
    let n = m.len();
    let mut i: usize = 0;
    while i < n
        invariant
            i <= n,
            n == m@.len(),
            gm == pairs_model(m@),
            gm.len() == n,
            i == 0 ==> out@ == pre + seq!['{'],
            i > 0 ==> out@ == pre + seq!['{'] + spec_encode_pair(gm[0]) + spec_encode_pairs_tail(
                gm.subrange(1, i as int),
            ),
        decreases n - i,
    {
        let ghost before = out@;
        if i > 0 {
            push_char(out, ',');
        }
        append_json_string(out, m[i].0.as_str());
        push_char(out, ':');
        append_json_string(out, m[i].1.as_str());
        proof {
            assert(gm[i as int] == (m@[i as int].0@, m@[i as int].1@));
            if i == 0 {
                assert(out@ =~= pre + seq!['{'] + spec_encode_pair(gm[0]));
                assert(spec_encode_pairs_tail(gm.subrange(1, 1)) == Seq::<char>::empty());
                assert(out@ =~= pre + seq!['{'] + spec_encode_pair(gm[0]) + spec_encode_pairs_tail(
                    gm.subrange(1, 1),
                ));
            } else {
                assert(gm.subrange(1, i + 1) =~= gm.subrange(1, i as int).push(gm[i as int]));
                lemma_encode_tail_snoc(gm.subrange(1, i as int), gm[i as int]);
                assert(out@ =~= before + seq![','] + spec_encode_pair(gm[i as int]));
                assert(out@ =~= pre + seq!['{'] + spec_encode_pair(gm[0])
                    + spec_encode_pairs_tail(gm.subrange(1, i + 1)));
            }
        }
        i = i + 1;
    }
    push_char(out, '}');
    proof {
        if n == 0 {
            assert(out@ =~= pre + spec_encode_flat_object(gm));
        } else {
            assert(gm.subrange(1, n as int) =~= gm.drop_first());
            assert(out@ =~= pre + spec_encode_flat_object(gm));
        }
    }
}

/// `p` is a prefix of `s`.
pub open spec fn spec_starts_with(s: Seq<char>, p: Seq<char>) -> bool {
    p.len() <= s.len() && s.take(p.len() as int) == p
}

/// Does the text at `i` begin with the literal? On success gives the
/// position just past it.
pub(crate) fn match_lit(s: &Vec<char>, i: usize, lit: &str) -> (r: Option<usize>)
    requires
        i <= s@.len(),
    ensures
        match r {
            Some(j) => i <= j <= s@.len() && spec_starts_with(s@.skip(i as int), lit@) && j == i
                + lit@.len() && s@.skip(j as int) == s@.skip(i as int).skip(lit@.len() as int),
            None => !spec_starts_with(s@.skip(i as int), lit@),
        },
{
    let n = lit.unicode_len();
    if s.len() - i < n {
        return None;
    }
    let slen = s.len();
    let mut k: usize = 0;
    let mut pos: usize = i;
    while k < n
        invariant
            k <= n,
            pos == i + k,
            n == lit@.len(),
            i <= s@.len(),
            slen == s@.len(),
            n <= s@.len() - i,
            forall|t: int| 0 <= t < k ==> s@[i + t] == lit@[t],
        decreases n - k,
    {
        assert(pos < s@.len());
        if s[pos] != lit.get_char(k) {
            proof {
                assert(s@.skip(i as int).take(n as int)[k as int] == s@[i + k]);
                assert(s@.skip(i as int).take(n as int) != lit@);
            }
            return None;
        }
        k = k + 1;
        pos = pos + 1;
    }
    proof {
        assert(s@.skip(i as int).take(n as int) =~= lit@);
        assert(s@.skip(pos as int) =~= s@.skip(i as int).skip(n as int));
    }
    Some(pos)
}

/// Is the text from `i` on exactly one closing brace?
pub(crate) fn at_closing_brace_end(s: &Vec<char>, i: usize) -> (r: bool)
    requires
        i <= s@.len(),
    ensures
        r == (s@.skip(i as int) == "}"@),
{
    proof {
        reveal_strlit("}");
    }
    if s.len() - i == 1 {
        if s[i] == '}' {
            assert(s@.skip(i as int) =~= "}"@);
            true
        } else {
            assert(s@.skip(i as int)[0] != "}"@[0]);
            false
        }
    } else {
        assert(s@.skip(i as int).len() != "}"@.len());
        false
    }
}

/// Pulls the values of three distinct field names out of a parsed document,
/// each read last-one-wins as a JSON object's repeated fields do.
pub(crate) fn extract3(doc: Vec<(String, JsonVal)>, k1: &str, k2: &str, k3: &str) -> (r: (
    Option<JsonVal>,
    Option<JsonVal>,
    Option<JsonVal>,
))
    requires
        k1@ != k2@,
        k1@ != k3@,
        k2@ != k3@,
    ensures
        (match r.0 {
            Some(v) => spec_field(doc_model(doc@), k1@) == Some(v@),
            None => spec_field(doc_model(doc@), k1@) is None,
        }),
        (match r.1 {
            Some(v) => spec_field(doc_model(doc@), k2@) == Some(v@),
            None => spec_field(doc_model(doc@), k2@) is None,
        }),
        (match r.2 {
            Some(v) => spec_field(doc_model(doc@), k3@) == Some(v@),
            None => spec_field(doc_model(doc@), k3@) is None,
        }),
{
    let ghost doc0 = doc@;
    let mut rest = doc;
    let mut f1: Option<JsonVal> = None;
    let mut f2: Option<JsonVal> = None;
    let mut f3: Option<JsonVal> = None;
    loop
        invariant
            k1@ != k2@,
            k1@ != k3@,
            k2@ != k3@,
            (match f1 {
                Some(v) => spec_field(doc_model(doc0), k1@) == Some(v@),
                None => spec_field(doc_model(doc0), k1@) == spec_field(doc_model(rest@), k1@),
            }),
            (match f2 {
                Some(v) => spec_field(doc_model(doc0), k2@) == Some(v@),
                None => spec_field(doc_model(doc0), k2@) == spec_field(doc_model(rest@), k2@),
            }),
            (match f3 {
                Some(v) => spec_field(doc_model(doc0), k3@) == Some(v@),
                None => spec_field(doc_model(doc0), k3@) == spec_field(doc_model(rest@), k3@),
            }),
        ensures
            rest@.len() == 0,
        decreases rest@.len(),
    {
        let ghost before = rest@;
        let p = match rest.pop() {
            None => {
                break ;
            },
            Some(p) => p,
        };
        proof {
            assert(doc_model(before).last() == (p.0@, p.1@));
            assert(doc_model(before).drop_last() =~= doc_model(rest@));
        }
        if str_eq(p.0.as_str(), k1) {
            if f1.is_none() {
                f1 = Some(p.1);
            }
        } else if str_eq(p.0.as_str(), k2) {
            if f2.is_none() {
                f2 = Some(p.1);
            }
        } else if str_eq(p.0.as_str(), k3) {
            if f3.is_none() {
                f3 = Some(p.1);
            }
        }
    }
    assert(doc_model(rest@) =~= Seq::<(Seq<char>, JsonValModel)>::empty());
    (f1, f2, f3)
}

/// Pulls the value of one field name out of a parsed document, read
/// last-one-wins as a JSON object's repeated fields are.
pub(crate) fn extract1(doc: Vec<(String, JsonVal)>, k: &str) -> (r: Option<JsonVal>)
    ensures
        match r {
            Some(v) => spec_field(doc_model(doc@), k@) == Some(v@),
            None => spec_field(doc_model(doc@), k@) is None,
        },
{
    let ghost doc0 = doc@;
    let mut rest = doc;
    let mut found: Option<JsonVal> = None;
    loop
        invariant
            (match found {
                Some(v) => spec_field(doc_model(doc0), k@) == Some(v@),
                None => spec_field(doc_model(doc0), k@) == spec_field(doc_model(rest@), k@),
            }),
        ensures
            rest@.len() == 0,
        decreases rest@.len(),
    {
        let ghost before = rest@;
        let p = match rest.pop() {
            None => {
                break ;
            },
            Some(p) => p,
        };
        proof {
            assert(doc_model(before).last() == (p.0@, p.1@));
            assert(doc_model(before).drop_last() =~= doc_model(rest@));
        }
        if str_eq(p.0.as_str(), k) {
            if found.is_none() {
                found = Some(p.1);
            }
        }
    }
    assert(doc_model(rest@) =~= Seq::<(Seq<char>, JsonValModel)>::empty());
    found
}

/// Reading a string body gives back exactly what escaping put in.
pub proof fn lemma_parse_body_of_escaped(x: Seq<char>, rest: Seq<char>)
    ensures
        spec_parse_string_body(spec_escape(x) + seq!['"'] + rest) == Some((x, rest)),
    decreases x.len(),
{
    let t = spec_escape(x) + seq!['"'] + rest;
    if x.len() == 0 {
        assert(t[0] == '"');
        assert(t.skip(1) =~= rest);
        assert(x =~= Seq::<char>::empty());
    } else {
        let c = x[0];
        let xr = x.drop_first();
        let e = spec_escape_char(c);
        let tr = spec_escape(xr) + seq!['"'] + rest;
        lemma_parse_body_of_escaped(xr, rest);
        assert(spec_escape(x) == e + spec_escape(xr));
        if c == '"' {
            assert(t[0] == '\\');
            assert(t[1] == '"');
            assert(t.skip(2) =~= tr);
            assert(seq![c] + xr =~= x);
        } else if c == '\\' {
            assert(t[0] == '\\');
            assert(t[1] == '\\');
            assert(t.skip(2) =~= tr);
            assert(seq![c] + xr =~= x);
        } else if (c as u32) < 32 {
            let v = c as u32;
            assert(t[0] == '\\');
            assert(t[1] == 'u');
            assert(t.len() >= 6);
            assert(t[2] == '0');
            assert(t[3] == '0');
            assert(t[4] == spec_hex_char(v / 16));
            assert(t[5] == spec_hex_char(v % 16));
            assert(spec_hex_val('0') == Some(0u32));
            lemma_hex_inverse(v / 16);
            lemma_hex_inverse(v % 16);
            assert((v / 16) * 16 + v % 16 == v);
            assert(is_scalar_value(v));
            vstd::utf8::char_u32_cast(c, v);
            assert(spec_unescape_u(t[2], t[3], t[4], t[5]) == Some(c));
            assert(t.skip(6) =~= tr);
            assert(seq![c] + xr =~= x);
        } else {
            assert(t[0] == c);
            assert(t.skip(1) =~= tr);
            assert(seq![c] + xr =~= x);
        }
    }
}

/// Reading a string gives back exactly what encoding put in.
pub proof fn lemma_parse_encoded_string(x: Seq<char>, rest: Seq<char>)
    ensures
        spec_parse_string(spec_encode_string(x) + rest) == Some((x, rest)),
{
    let t = spec_encode_string(x) + rest;
    assert(t[0] == '"');
    assert(t.skip(1) =~= spec_escape(x) + seq!['"'] + rest);
    lemma_parse_body_of_escaped(x, rest);
}

/// Reading flat pairs gives back exactly what encoding a non-empty flat
/// object put in, up to its closing brace.
pub proof fn lemma_parse_encoded_flat_pairs(m: Seq<(Seq<char>, Seq<char>)>, rest: Seq<char>)
    requires
        m.len() > 0,
    ensures
        spec_parse_flat_pairs(
            spec_encode_pair(m[0]) + spec_encode_pairs_tail(m.drop_first()) + seq!['}'] + rest,
        ) == Some((m, rest)),
    decreases m.len(),
{
    let k = m[0].0;
    let v = m[0].1;
    let mr = m.drop_first();
    let t = spec_encode_pair(m[0]) + spec_encode_pairs_tail(mr) + seq!['}'] + rest;
    let rest2 = seq![':'] + spec_encode_string(v) + spec_encode_pairs_tail(mr) + seq!['}'] + rest;
    assert(t =~= spec_encode_string(k) + rest2);
    lemma_parse_encoded_string(k, rest2);
    assert(spec_parse_string(t) == Some((k, rest2)));
    assert(!is_ws_char(rest2[0]));
    lemma_skip_ws_noop(rest2);
    let r3 = rest2.skip(1);
    let r4 = spec_encode_pairs_tail(mr) + seq!['}'] + rest;
    assert(r3 =~= spec_encode_string(v) + r4);
    assert(!is_ws_char(r3[0]));
    lemma_skip_ws_noop(r3);
    lemma_parse_encoded_string(v, r4);
    if mr.len() == 0 {
        assert(r4 =~= seq!['}'] + rest);
        assert(!is_ws_char(r4[0]));
        lemma_skip_ws_noop(r4);
        assert(r4[0] == '}');
        assert(r4.skip(1) =~= rest);
        assert(seq![(k, v)] =~= m);
    } else {
        assert(spec_encode_pairs_tail(mr) == seq![','] + spec_encode_pair(mr[0])
            + spec_encode_pairs_tail(mr.drop_first()));
        assert(r4[0] == ',');
        lemma_skip_ws_noop(r4);
        let r6pre = r4.skip(1);
        let inner = spec_encode_pair(mr[0]) + spec_encode_pairs_tail(mr.drop_first()) + seq!['}']
            + rest;
        assert(r6pre =~= inner);
        assert(!is_ws_char(inner[0])) by {
            assert(inner[0] == '"');
        }
        lemma_skip_ws_noop(r6pre);
        lemma_parse_encoded_flat_pairs(mr, rest);
        assert(spec_parse_flat_pairs(r6pre) == Some((mr, rest)));
        assert(seq![(k, v)] + mr =~= m);
    }
}

/// Reading a flat object gives back exactly what encoding put in.
pub proof fn lemma_parse_encoded_flat_object(m: Seq<(Seq<char>, Seq<char>)>, rest: Seq<char>)
    ensures
        spec_parse_flat_object(spec_encode_flat_object(m) + rest) == Some((m, rest)),
{
    let t = spec_encode_flat_object(m) + rest;
    assert(t[0] == '{');
    if m.len() == 0 {
        assert(t.skip(1) =~= seq!['}'] + rest);
        let r1pre = t.skip(1);
        assert(!is_ws_char(r1pre[0]));
        lemma_skip_ws_noop(r1pre);
        assert(r1pre.skip(1) =~= rest);
        assert(m =~= Seq::<(Seq<char>, Seq<char>)>::empty());
    } else {
        let inner = spec_encode_pair(m[0]) + spec_encode_pairs_tail(m.drop_first()) + seq!['}']
            + rest;
        assert(t.skip(1) =~= inner);
        assert(!is_ws_char(inner[0])) by {
            assert(inner[0] == '"');
        }
        lemma_skip_ws_noop(t.skip(1));
        assert(inner[0] != '}');
        lemma_parse_encoded_flat_pairs(m, rest);
    }
}

} // verus!

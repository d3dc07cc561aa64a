//! The text fields of an image-trace request: the glyph name, and the
//! Unicode codepoints written as hexadecimal (`"0023, U+0026"`).

use vstd::prelude::*;
use vstd::string::{StrSliceExecFns, StringExecFns};
use crate::decimal::push_char;

verus! {

/// Whether `c` has the Unicode `White_Space` property.
pub open spec fn white_space(c: char) -> bool {
    let v = c as u32;
    (0x9 <= v <= 0xD) || v == 0x20 || v == 0x85 || v == 0xA0 || v == 0x1680 || (0x2000 <= v
        <= 0x200A) || v == 0x2028 || v == 0x2029 || v == 0x202F || v == 0x205F || v == 0x3000
}

/// Whether `c` is whitespace, as `char::is_whitespace` decides it: whether
/// it has the Unicode `White_Space` property.
pub(crate) fn is_whitespace(c: char) -> (r: bool)
    ensures
        r == white_space(c),
{
    let v = c as u32;
    (0x9 <= v && v <= 0xD) || v == 0x20 || v == 0x85 || v == 0xA0 || v == 0x1680 || (0x2000 <= v && v
        <= 0x200A) || v == 0x2028 || v == 0x2029 || v == 0x202F || v == 0x205F || v == 0x3000
}

/// Whether `v` is a Unicode scalar value (a code point that is not a surrogate).
pub open spec fn is_scalar(v: nat) -> bool {
    v < 0xD800 || (0xE000 <= v && v <= 0x10FFFF)
}

/// The `char` with code `v`, if `v` is a Unicode scalar value.
///
/// Wraps `char::from_u32`, which std documents as returning `None` exactly
/// when the value is a surrogate or above `char::MAX` (0x10FFFF).
#[verifier::external_body]
pub(crate) fn char_from_u32(v: u32) -> (r: Option<char>)
    ensures
        is_scalar(v as nat) ==> r == Some(v as char),
        !is_scalar(v as nat) ==> r.is_none(),
{
    char::from_u32(v)
}

/// Codepoints in a list are separated by commas and whitespace.
pub open spec fn is_separator(c: char) -> bool {
    c == ',' || white_space(c)
}

/// The pieces of `s` between separators, as `str::split` yields them
/// (empty pieces included).
pub open spec fn pieces(s: Seq<char>) -> Seq<Seq<char>>
    decreases s.len(),
{
    if s.len() == 0 {
        seq![seq![]]
    } else {
        let p = pieces(s.drop_last());
        if is_separator(s.last()) {
            p.push(seq![])
        } else {
            p.update(p.len() - 1, p.last().push(s.last()))
        }
    }
}

/// The pieces that are not empty, in order.
pub open spec fn nonempty_pieces(p: Seq<Seq<char>>) -> Seq<Seq<char>>
    decreases p.len(),
{
    if p.len() == 0 {
        seq![]
    } else {
        let r = nonempty_pieces(p.drop_last());
        if p.last().len() > 0 {
            r.push(p.last())
        } else {
            r
        }
    }
}

/// A token without its `U+` or `u+` prefix.
pub open spec fn strip_unicode_prefix(raw: Seq<char>) -> Seq<char> {
    if raw.len() >= 2 && (raw[0] == 'U' || raw[0] == 'u') && raw[1] == '+' {
        raw.subrange(2, raw.len() as int)
    } else {
        raw
    }
}

/// The value of a hexadecimal digit (either case).
pub open spec fn hex_digit_value(c: char) -> Option<nat> {
    if '0' <= c && c <= '9' {
        Some((c as nat - '0' as nat) as nat)
    } else if 'a' <= c && c <= 'f' {
        Some((c as nat - 'a' as nat + 10) as nat)
    } else if 'A' <= c && c <= 'F' {
        Some((c as nat - 'A' as nat + 10) as nat)
    } else {
        None
    }
}

/// The value of a string of hexadecimal digits; `None` if one is not a digit.
pub open spec fn hex_digits_value(d: Seq<char>) -> Option<nat>
    decreases d.len(),
{
    if d.len() == 0 {
        Some(0)
    } else {
        match (hex_digits_value(d.drop_last()), hex_digit_value(d.last())) {
            (Some(a), Some(b)) => Some(a * 16 + b),
            _ => None,
        }
    }
}

/// What `u32::from_str_radix(h, 16)` accepts: an optional `+`, then at
/// least one hexadecimal digit, with a value that fits in a `u32`.
pub open spec fn parse_hex_u32(h: Seq<char>) -> Option<nat> {
    let digits = if h.len() > 0 && h[0] == '+' { h.drop_first() } else { h };
    if digits.len() == 0 {
        None
    } else {
        match hex_digits_value(digits) {
            Some(v) => if v <= u32::MAX { Some(v) } else { None },
            None => None,
        }
    }
}

/// The codepoint a token names, or the error message for it.
pub open spec fn token_codepoint(raw: Seq<char>) -> Result<char, Seq<char>> {
    match parse_hex_u32(strip_unicode_prefix(raw)) {
        None => Err("invalid unicode hex: "@ + raw),
        Some(v) => if is_scalar(v) {
            Ok(v as char)
        } else {
            Err("invalid unicode scalar value: "@ + raw)
        },
    }
}

/// The codepoints of a token list, or the error of the first bad token.
pub open spec fn tokens_codepoints(toks: Seq<Seq<char>>) -> Result<Seq<char>, Seq<char>>
    decreases toks.len(),
{
    if toks.len() == 0 {
        Ok(seq![])
    } else {
        match tokens_codepoints(toks.drop_last()) {
            Err(e) => Err(e),
            Ok(cs) => match token_codepoint(toks.last()) {
                Ok(c) => Ok(cs.push(c)),
                Err(e) => Err(e),
            },
        }
    }
}

/// The result of parsing an optional codepoint list.
pub open spec fn codepoints_result(value: Option<Seq<char>>) -> Result<Seq<char>, Seq<char>> {
    match value {
        None => Ok(seq![]),
        Some(s) => tokens_codepoints(nonempty_pieces(pieces(s))),
    }
}

fn push_chars(s: &mut String, chars: &Vec<char>)
    ensures
        final(s)@ == old(s)@ + chars@,
{
    let mut i: usize = 0;
    while i < chars.len()
        invariant
            i <= chars@.len(),
            s@ == old(s)@ + chars@.subrange(0, i as int),
        decreases chars@.len() - i,
    {
        push_char(s, chars[i]);
        assert(chars@.subrange(0, i as int + 1) =~= chars@.subrange(0, i as int).push(chars@[i as int]));
        i = i + 1;
    }
    assert(chars@.subrange(0, i as int) =~= chars@);
}

fn hex_digit(c: char) -> (r: Option<u64>)
    ensures
        match hex_digit_value(c) {
            Some(v) => r == Some(v as u64),
            None => r.is_none(),
        },
{
    if '0' <= c && c <= '9' {
        Some((c as u32 - '0' as u32) as u64)
    } else if 'a' <= c && c <= 'f' {
        Some((c as u32 - 'a' as u32 + 10) as u64)
    } else if 'A' <= c && c <= 'F' {
        Some((c as u32 - 'A' as u32 + 10) as u64)
    } else {
        None
    }
}

/// Parse hexadecimal text as `u32::from_str_radix(h, 16)` does.
pub fn parse_hex(h: &Vec<char>) -> (r: Option<u32>)
    ensures
        match parse_hex_u32(h@) {
            Some(v) => r == Some(v as u32),
            None => r.is_none(),
        },
{
    let start: usize = if h.len() > 0 && h[0] == '+' { 1 } else { 0 };
    let ghost digits = if h@.len() > 0 && h@[0] == '+' { h@.drop_first() } else { h@ };
    assert(digits =~= h@.subrange(start as int, h@.len() as int));
    if start >= h.len() {
        return None;
    }
    let mut i: usize = start;
    let mut ok = true;
    let mut capped: u64 = 0;
    while i < h.len()
        invariant
            start <= i <= h@.len(),
            digits == h@.subrange(start as int, h@.len() as int),
            ok == hex_digits_value(h@.subrange(start as int, i as int)).is_some(),
            ok ==> capped == (if hex_digits_value(h@.subrange(start as int, i as int)).unwrap()
                < 0x1_0000_0000 {
                hex_digits_value(h@.subrange(start as int, i as int)).unwrap()
            } else {
                0x1_0000_0000
            }),
        decreases h@.len() - i,
    {
        let ghost prefix = h@.subrange(start as int, i as int);
        let ghost next = h@.subrange(start as int, i as int + 1);
        assert(next.drop_last() =~= prefix);
        assert(next.last() == h@[i as int]);
        match hex_digit(h[i]) {
            Some(d) => {
                if ok {
                    if capped >= 0x1_0000_0000 {
                        capped = 0x1_0000_0000;
                    } else {
                        capped = capped * 16 + d;
                        if capped >= 0x1_0000_0000 {
                            capped = 0x1_0000_0000;
                        }
                    }
                }
            },
            None => {
                ok = false;
            },
        }
        i = i + 1;
    }
    assert(h@.subrange(start as int, i as int) =~= digits);
    if !ok || capped > 0xFFFF_FFFF {
        None
    } else {
        Some(capped as u32)
    }
}

fn token_result(raw: &Vec<char>) -> (r: Result<char, String>)
    ensures
        match token_codepoint(raw@) {
            Ok(c) => r == Ok::<char, String>(c),
            Err(e) => r.is_err() && r.unwrap_err()@ == e,
        },
{
    let ghost stripped = strip_unicode_prefix(raw@);
    let hex: Vec<char> = if raw.len() >= 2 && (raw[0] == 'U' || raw[0] == 'u') && raw[1] == '+' {
        let mut h: Vec<char> = Vec::new();
        let mut i: usize = 2;
        while i < raw.len()
            invariant
                2 <= i <= raw@.len(),
                h@ == raw@.subrange(2, i as int),
            decreases raw@.len() - i,
        {
            h.push(raw[i]);
            assert(raw@.subrange(2, i as int + 1) =~= raw@.subrange(2, i as int).push(raw@[i as int]));
            i = i + 1;
        }
        h
    } else {
        let mut h: Vec<char> = Vec::new();
        let mut i: usize = 0;
        while i < raw.len()
            invariant
                i <= raw@.len(),
                h@ == raw@.subrange(0, i as int),
            decreases raw@.len() - i,
        {
            h.push(raw[i]);
            assert(raw@.subrange(0, i as int + 1) =~= raw@.subrange(0, i as int).push(raw@[i as int]));
            i = i + 1;
        }
        assert(raw@.subrange(0, i as int) =~= raw@);
        h
    };
    assert(hex@ =~= stripped);
    match parse_hex(&hex) {
        None => {
            let mut e = String::new();
            e.append("invalid unicode hex: ");
            push_chars(&mut e, raw);
            Err(e)
        },
        Some(v) => match char_from_u32(v) {
            Some(c) => Ok(c),
            None => {
                let mut e = String::new();
                e.append("invalid unicode scalar value: ");
                push_chars(&mut e, raw);
                Err(e)
            },
        },
    }
}

} // verus!

verus! {

/// Parse a codepoint list such as `"0023, U+0026"`: hexadecimal values, each
/// optionally prefixed with `U+` or `u+`, separated by commas or whitespace.
/// No list, or an empty one, gives no codepoints. The first token that is not
/// a hexadecimal `u32` gives `"invalid unicode hex: {token}"`; the first
/// that is not a Unicode scalar value gives
/// `"invalid unicode scalar value: {token}"`.
pub fn parse_codepoints(value: Option<&str>) -> (r: Result<Vec<char>, String>)
    ensures
        result_view(r) == codepoints_result(
            match value {
                Some(s) => Some(s@),
                None => None,
            },
        ),
{
    let s = match value {
        None => {
            return Ok(Vec::new());
        },
        Some(s) => s,
    };
    let n = s.unicode_len();
    let mut state: Result<Vec<char>, String> = Ok(Vec::new());
    let mut tok: Vec<char> = Vec::new();
    let mut i: usize = 0;
    while i < n
        invariant
            n == s@.len(),
            i <= n,
            pieces(s@.subrange(0, i as int)).len() > 0,
            pieces(s@.subrange(0, i as int)).last() == tok@,
            result_view(state) == tokens_codepoints(nonempty_pieces(pieces(s@.subrange(0, i as int)).drop_last())),
        decreases n - i,
    {
        let c = s.get_char(i);
        let ghost before = s@.subrange(0, i as int);
        let ghost after = s@.subrange(0, i as int + 1);
        assert(after.drop_last() =~= before);
        assert(after.last() == c);
        if c == ',' || is_whitespace(c) {
            proof {
                let p = pieces(before);
                assert(pieces(after) == p.push(seq![]));
                assert(pieces(after).drop_last() =~= p);
                lemma_fold_piece(p);
            }
            state = finish_token(state, &tok);
            tok = Vec::new();
            assert(pieces(after).last() =~= tok@);
        } else {
            tok.push(c);
            proof {
                let p = pieces(before);
                assert(pieces(after).drop_last() =~= p.drop_last());
            }
        }
        i = i + 1;
    }
    assert(s@.subrange(0, i as int) =~= s@);
    proof {
        lemma_fold_piece(pieces(s@));
    }
    finish_token(state, &tok)
}


/// A parse result as a value.
pub open spec fn result_view(r: Result<Vec<char>, String>) -> Result<Seq<char>, Seq<char>> {
    match r {
        Ok(v) => Ok(v@),
        Err(e) => Err(e@),
    }
}

/// The running result after one more piece.
pub open spec fn fold_piece(prev: Result<Seq<char>, Seq<char>>, tok: Seq<char>) -> Result<Seq<char>, Seq<char>> {
    match prev {
        Err(e) => Err(e),
        Ok(cs) => if tok.len() == 0 {
            Ok(cs)
        } else {
            match token_codepoint(tok) {
                Ok(c) => Ok(cs.push(c)),
                Err(e) => Err(e),
            }
        },
    }
}

proof fn lemma_fold_piece(p: Seq<Seq<char>>)
    requires
        p.len() > 0,
    ensures
        tokens_codepoints(nonempty_pieces(p)) == fold_piece(
            tokens_codepoints(nonempty_pieces(p.drop_last())),
            p.last(),
        ),
{
    let r = nonempty_pieces(p.drop_last());
    if p.last().len() > 0 {
        assert(nonempty_pieces(p).drop_last() =~= r);
    }
}

/// Fold the last piece into the running result.
fn finish_token(state: Result<Vec<char>, String>, tok: &Vec<char>) -> (r: Result<Vec<char>, String>)
    ensures
        result_view(r) == fold_piece(result_view(state), tok@),
{
    match state {
        Err(e) => Err(e),
        Ok(mut cs) => {
            if tok.len() == 0 {
                Ok(cs)
            } else {
                match token_result(tok) {
                    Ok(c) => {
                        cs.push(c);
                        Ok(cs)
                    },
                    Err(e) => Err(e),
                }
            }
        },
    }
}

} // verus!

verus! {

/// Whether a string is empty once trimmed: every character is whitespace.
pub open spec fn blank(s: Seq<char>) -> bool {
    forall|i: int| 0 <= i < s.len() ==> white_space(#[trigger] s[i])
}

/// Whether `s` is empty once leading and trailing whitespace is trimmed.
pub fn is_blank(s: &str) -> (r: bool)
    ensures
        r == blank(s@),
{
    let n = s.unicode_len();
    let mut i: usize = 0;
    while i < n
        invariant
            n == s@.len(),
            i <= n,
            forall|j: int| 0 <= j < i ==> white_space(#[trigger] s@[j]),
        decreases n - i,
    {
        if !is_whitespace(s.get_char(i)) {
            return false;
        }
        i = i + 1;
    }
    true
}

/// Refuse a trace request without image data.
pub fn check_image_bytes(image_bytes: &[u8]) -> (r: Result<(), String>)
    ensures
        image_bytes@.len() == 0 ==> r.is_err() && r.unwrap_err()@ == "image bytes are empty"@,
        image_bytes@.len() > 0 ==> r.is_ok(),
{
    if image_bytes.len() == 0 {
        let mut e = String::new();
        e.append("image bytes are empty");
        assert(e@ =~= "image bytes are empty"@);
        return Err(e);
    }
    Ok(())
}

/// Check the text fields of a trace request: the glyph name must not be
/// blank, and the optional codepoint list must parse; gives the codepoints.
pub fn check_trace_fields(glyph: &str, unicode: Option<&str>) -> (r: Result<Vec<char>, String>)
    ensures
        blank(glyph@) ==> r.is_err() && r.unwrap_err()@ == "glyph name is required"@,
        !blank(glyph@) ==> result_view(r) == codepoints_result(
            match unicode {
                Some(s) => Some(s@),
                None => None,
            },
        ),
{
    if is_blank(glyph) {
        let mut e = String::new();
        e.append("glyph name is required");
        assert(e@ =~= "glyph name is required"@);
        return Err(e);
    }
    parse_codepoints(unicode)
}

} // verus!

//! Verified text building blocks for the persisted layout.
//!
//! The telemetry logs are newline-delimited JSON and the statistics
//! snapshot is a single JSON document, so the crate needs to render
//! decimal numbers and JSON string escapes itself, with the output
//! pinned down exactly: digits of a number, and an escape for every
//! character a JSON string may not contain raw.

use vstd::prelude::*;
use vstd::string::*;

verus! {

/// The decimal digit character for `d` (0 through 9).
pub open spec fn digit_char(d: int) -> char {
    if d == 0 {
        '0'
    } else if d == 1 {
        '1'
    } else if d == 2 {
        '2'
    } else if d == 3 {
        '3'
    } else if d == 4 {
        '4'
    } else if d == 5 {
        '5'
    } else if d == 6 {
        '6'
    } else if d == 7 {
        '7'
    } else if d == 8 {
        '8'
    } else {
        '9'
    }
}

/// The lowercase hexadecimal digit character for `d` (0 through 15).
pub open spec fn hex_char(d: int) -> char {
    if d < 10 {
        digit_char(d)
    } else if d == 10 {
        'a'
    } else if d == 11 {
        'b'
    } else if d == 12 {
        'c'
    } else if d == 13 {
        'd'
    } else if d == 14 {
        'e'
    } else {
        'f'
    }
}

/// The usual decimal rendering of `n`: no sign, no leading zero except
/// for zero itself.
pub open spec fn spec_u64_dec(n: nat) -> Seq<char>
    decreases n,
{
    if n < 10 {
        seq![digit_char(n as int)]
    } else {
        spec_u64_dec(n / 10).push(digit_char((n % 10) as int))
    }
}

/// The decimal rendering of `n`, with a leading minus sign when it is
/// negative.
pub open spec fn spec_i64_dec(n: int) -> Seq<char> {
    if n >= 0 {
        spec_u64_dec(n as nat)
    } else {
        seq!['-'] + spec_u64_dec((-n) as nat)
    }
}

/// The one-character string slice holding the decimal digit `d`.
fn digit_str(d: u64) -> (r: &'static str)
    requires
        d < 10,
    ensures
        r@ =~= seq![digit_char(d as int)],
{
    proof {
        reveal_strlit("0");
        reveal_strlit("1");
        reveal_strlit("2");
        reveal_strlit("3");
        reveal_strlit("4");
        reveal_strlit("5");
        reveal_strlit("6");
        reveal_strlit("7");
        reveal_strlit("8");
        reveal_strlit("9");
    }
    match d {
        0 => "0",
        1 => "1",
        2 => "2",
        3 => "3",
        4 => "4",
        5 => "5",
        6 => "6",
        7 => "7",
        8 => "8",
        _ => "9",
    }
}

/// The one-character string slice holding the lowercase hex digit `d`.
fn hex_str(d: u32) -> (r: &'static str)
    requires
        d < 16,
    ensures
        r@ =~= seq![hex_char(d as int)],
{
    proof {
        reveal_strlit("a");
        reveal_strlit("b");
        reveal_strlit("c");
        reveal_strlit("d");
        reveal_strlit("e");
        reveal_strlit("f");
    }
    if d < 10 {
        digit_str(d as u64)
    } else {
        match d {
            10 => "a",
            11 => "b",
            12 => "c",
            13 => "d",
            14 => "e",
            _ => "f",
        }
    }
}

/// Append the decimal rendering of `n` to `out`.
pub fn push_u64_dec(out: &mut String, n: u64)
    ensures
        final(out)@ == old(out)@ + spec_u64_dec(n as nat),
    decreases n,
{
    if n < 10 {
        out.append(digit_str(n));
    } else {
        push_u64_dec(out, n / 10);
        out.append(digit_str(n % 10));
        proof {
            assert(old(out)@ + spec_u64_dec((n / 10) as nat) + seq![
                digit_char((n % 10) as int),
            ] =~= old(out)@ + spec_u64_dec(n as nat));
        }
    }
}

/// Append the decimal rendering of `n`, sign included, to `out`.
pub fn push_i64_dec(out: &mut String, n: i64)
    ensures
        final(out)@ == old(out)@ + spec_i64_dec(n as int),
{
    if n >= 0 {
        push_u64_dec(out, n as u64);
    } else {
        proof {
            reveal_strlit("-");
        }
        out.append("-");
        let magnitude: u64 = if n == i64::MIN {
            9223372036854775808u64
        } else {
            (-n) as u64
        };
        push_u64_dec(out, magnitude);
        proof {
            assert(old(out)@ + "-"@ + spec_u64_dec(magnitude as nat) =~= old(out)@ + spec_i64_dec(
                n as int,
            ));
        }
    }
}

/// Whether a JSON string may contain `c` unescaped: everything except
/// the quote, the backslash, and the control characters.
pub open spec fn json_safe_char(c: char) -> bool {
    c != '"' && c != '\\' && (c as u32) >= 32
}

/// The JSON escape of a single character: safe characters stand for
/// themselves, the quote and the backslash get a backslash, and control
/// characters become `\u00` plus two hex digits.
pub open spec fn esc_char(c: char) -> Seq<char> {
    if c == '"' {
        seq!['\\', '"']
    } else if c == '\\' {
        seq!['\\', '\\']
    } else if (c as u32) < 32 {
        seq!['\\', 'u', '0', '0', hex_char((c as u32) as int / 16), hex_char(
            (c as u32) as int % 16,
        )]
    } else {
        seq![c]
    }
}

/// The JSON escape of a whole string: each character escaped in place.
pub open spec fn spec_json_escape(s: Seq<char>) -> Seq<char>
    decreases s.len(),
{
    if s.len() == 0 {
        Seq::empty()
    } else {
        esc_char(s.first()) + spec_json_escape(s.drop_first())
    }
}

/// Escaping distributes over concatenation.
pub proof fn lemma_json_escape_concat(a: Seq<char>, b: Seq<char>)
    ensures
        spec_json_escape(a + b) == spec_json_escape(a) + spec_json_escape(b),
    decreases a.len(),
{
    if a.len() == 0 {
        assert(a + b =~= b);
        assert(spec_json_escape(a) + spec_json_escape(b) =~= spec_json_escape(b));
    } else {
        assert((a + b).drop_first() =~= a.drop_first() + b);
        lemma_json_escape_concat(a.drop_first(), b);
        assert(esc_char(a.first()) + (spec_json_escape(a.drop_first()) + spec_json_escape(b))
            =~= (esc_char(a.first()) + spec_json_escape(a.drop_first())) + spec_json_escape(b));
    }
}

/// A string of safe characters escapes to itself.
pub proof fn lemma_json_escape_safe(s: Seq<char>)
    requires
        forall|i: int| 0 <= i < s.len() ==> json_safe_char(s[i]),
    ensures
        spec_json_escape(s) == s,
    decreases s.len(),
{
    if s.len() > 0 {
        lemma_json_escape_safe(s.drop_first());
        assert(esc_char(s.first()) =~= seq![s.first()]);
        assert(seq![s.first()] + s.drop_first() =~= s);
    }
}

/// Escaping one character is that character's escape.
pub proof fn lemma_json_escape_single(c: char)
    ensures
        spec_json_escape(seq![c]) == esc_char(c),
{
    let e = Seq::<char>::empty();
    assert(seq![c].first() == c);
    assert(seq![c].drop_first() =~= e);
    assert(spec_json_escape(e) == Seq::<char>::empty());
    assert(spec_json_escape(seq![c]) == esc_char(c) + spec_json_escape(e));
    assert(esc_char(c) + Seq::<char>::empty() =~= esc_char(c));
}

/// The escape of the special character `c`.
fn esc_special(c: char) -> (r: String)
    requires
        !json_safe_char(c),
    ensures
        r@ == esc_char(c),
{
    let mut out = String::new();
    if c == '"' {
        proof {
            reveal_strlit("\\\"");
        }
        out.append("\\\"");
        proof {
            assert(Seq::<char>::empty() + "\\\""@ =~= esc_char(c));
        }
    } else if c == '\\' {
        proof {
            reveal_strlit("\\\\");
        }
        out.append("\\\\");
        proof {
            assert(Seq::<char>::empty() + "\\\\"@ =~= esc_char(c));
        }
    } else {
        proof {
            reveal_strlit("\\u00");
        }
        out.append("\\u00");
        let code = c as u32;
        out.append(hex_str(code / 16));
        out.append(hex_str(code % 16));
        proof {
            assert(Seq::<char>::empty() + "\\u00"@ + seq![hex_char(code as int / 16)] + seq![
                hex_char(code as int % 16),
            ] =~= esc_char(c));
        }
    }
    out
}

/// Append the JSON escape of `s` to `out`. Runs of safe characters are
/// copied over whole; only the quote, the backslash and the control
/// characters are replaced by their escapes.
pub fn push_json_escaped(out: &mut String, s: &str)
    ensures
        final(out)@ == old(out)@ + spec_json_escape(s@),
{
    let n = s.unicode_len();
    let mut run_start: usize = 0;
    let mut i: usize = 0;
    proof {
        assert(s@.subrange(0, 0) =~= Seq::<char>::empty());
        assert(old(out)@ + Seq::<char>::empty() =~= old(out)@);
    }
    while i < n
        invariant
            run_start <= i <= n,
            n == s@.len(),
            out@ == old(out)@ + spec_json_escape(s@.subrange(0, run_start as int)),
            forall|k: int| run_start <= k < i ==> json_safe_char(s@[k]),
        decreases n - i,
    {
        let c = s.get_char(i);
        let safe = c != '"' && c != '\\' && (c as u32) >= 32;
        if !safe {
            out.append(s.substring_char(run_start, i));
            out.append(esc_special(c).as_str());
            proof {
                let pre = s@.subrange(0, run_start as int);
                let run = s@.subrange(run_start as int, i as int);
                lemma_json_escape_safe(run);
                lemma_json_escape_concat(pre, run);
                assert(pre + run =~= s@.subrange(0, i as int));
                lemma_json_escape_concat(s@.subrange(0, i as int), seq![c]);
                assert(s@.subrange(0, i as int) + seq![c] =~= s@.subrange(0, i + 1));
                lemma_json_escape_single(c);
                assert(old(out)@ + spec_json_escape(s@.subrange(0, i + 1)) =~= old(out)@
                    + spec_json_escape(pre) + run + esc_char(c));
            }
            run_start = i + 1;
        }
        i = i + 1;
    }
    out.append(s.substring_char(run_start, n));
    proof {
        let pre = s@.subrange(0, run_start as int);
        let run = s@.subrange(run_start as int, n as int);
        lemma_json_escape_safe(run);
        lemma_json_escape_concat(pre, run);
        assert(pre + run =~= s@);
        assert(s@.subrange(0, n as int) =~= s@);
        assert(old(out)@ + spec_json_escape(pre) + run =~= old(out)@ + spec_json_escape(s@));
    }
}

/// Whether `s` is free of line breaks, so it fits on one line of a
/// newline-delimited log.
pub open spec fn single_line(s: Seq<char>) -> bool {
    forall|k: int| 0 <= k < s.len() ==> s[k] != '\n'
}

/// A decimal rendering never holds a line break.
pub proof fn lemma_u64_dec_single_line(n: nat)
    ensures
        single_line(spec_u64_dec(n)),
    decreases n,
{
    if n >= 10 {
        lemma_u64_dec_single_line(n / 10);
    }
}

/// Escaping a character never produces a line break: the line feed
/// itself is a control character and leaves as `\u000a`.
pub proof fn lemma_esc_char_single_line(c: char)
    ensures
        single_line(esc_char(c)),
{
}

/// An escaped string never holds a line break, whatever the input held.
pub proof fn lemma_json_escape_single_line(s: Seq<char>)
    ensures
        single_line(spec_json_escape(s)),
    decreases s.len(),
{
    if s.len() > 0 {
        lemma_esc_char_single_line(s.first());
        lemma_json_escape_single_line(s.drop_first());
    }
}

/// A JSON string token never holds a line break.
pub proof fn lemma_json_string_single_line(s: Seq<char>)
    ensures
        single_line(spec_json_string(s)),
{
    lemma_json_escape_single_line(s);
}

/// Pieces joined by commas: the body of a JSON object or array.
pub open spec fn spec_comma_join(items: Seq<Seq<char>>) -> Seq<char>
    decreases items.len(),
{
    if items.len() == 0 {
        Seq::empty()
    } else if items.len() == 1 {
        items[0]
    } else {
        spec_comma_join(items.drop_last()) + ","@ + items.last()
    }
}

/// The spec view of a complete JSON string token: quote, escaped
/// contents, quote.
pub open spec fn spec_json_string(s: Seq<char>) -> Seq<char> {
    seq!['"'] + spec_json_escape(s) + seq!['"']
}

/// Append the JSON string token for `s` to `out`.
pub fn push_json_string(out: &mut String, s: &str)
    ensures
        final(out)@ == old(out)@ + spec_json_string(s@),
{
    proof {
        reveal_strlit("\"");
    }
    out.append("\"");
    push_json_escaped(out, s);
    out.append("\"");
    proof {
        assert(old(out)@ + "\""@ + spec_json_escape(s@) + "\""@ =~= old(out)@ + spec_json_string(
            s@,
        ));
    }
}

} // verus!

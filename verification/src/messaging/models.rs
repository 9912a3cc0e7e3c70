//! Request validation of the messaging service, and the Python renderings
//! (`repr`, `str`) its error messages embed.

use vstd::prelude::*;
use crate::fields::strings_view;
use crate::messaging::printable::{is_non_printable, non_printable};
use crate::json::{
    lemma_view_members, lemma_view_seq, number_text, push_all, view_json, view_members, view_seq,
    Json, JsonV,
};
use crate::text::{
    chars_of, chars_present, concat2, copy_str, first_occurrence_from, has_char, join, join_chars,
    present_chars, string_of,
};

verus! {

// ---------------------------------------------------------------------------
// Python renderings
// ---------------------------------------------------------------------------

/// The lower-case hexadecimal digit of `n` (below 16).
pub open spec fn hex_digit(n: int) -> char {
    seq!['0', '1', '2', '3', '4', '5', '6', '7', '8', '9', 'a', 'b', 'c', 'd', 'e', 'f'][n]
}

/// The last `n` lower-case hexadecimal digits of `v`, most significant
/// first.
pub open spec fn hex_digits(v: nat, n: nat) -> Seq<char>
    decreases n,
{
    if n == 0 {
        seq![]
    } else {
        hex_digits(v / 16, (n - 1) as nat) + seq![hex_digit((v % 16) as int)]
    }
}

/// How Python's `repr()` writes a character it does not print: `\xNN`
/// below U+0100, `\uNNNN` below U+10000, else `\UNNNNNNNN`.
pub open spec fn hex_escape(v: nat) -> Seq<char> {
    if v < 0x100 {
        seq!['\\', 'x'] + hex_digits(v, 2)
    } else if v < 0x10000 {
        seq!['\\', 'u'] + hex_digits(v, 4)
    } else {
        seq!['\\', 'U'] + hex_digits(v, 8)
    }
}

/// How Python's `repr()` writes character `c` inside a string quoted with
/// `quote`: `\` and the quote escaped; tab, newline and carriage return as
/// `\t`, `\n`, `\r`; every other character that `str.isprintable` rejects
/// as a hexadecimal escape; the rest as it is.
pub open spec fn repr_char(c: char, quote: char) -> Seq<char> {
    if c == '\\' {
        seq!['\\', '\\']
    } else if c == quote {
        seq!['\\', quote]
    } else if c == '\t' {
        seq!['\\', 't']
    } else if c == '\n' {
        seq!['\\', 'n']
    } else if c == '\r' {
        seq!['\\', 'r']
    } else if non_printable(c as u32 as int) {
        hex_escape(c as u32 as nat)
    } else {
        seq![c]
    }
}

/// The characters of `s` as `repr()` writes them between `quote`s.
pub open spec fn repr_body(s: Seq<char>, quote: char) -> Seq<char>
    decreases s.len(),
{
    if s.len() == 0 {
        seq![]
    } else {
        repr_body(s.drop_last(), quote) + repr_char(s.last(), quote)
    }
}

/// Python `repr()` of a string: double quotes when it holds a single quote
/// and no double quote, else single quotes; inside, each character as
/// [`repr_char`] writes it.
pub open spec fn py_quote(s: Seq<char>) -> Seq<char> {
    if s.contains('\'') && !s.contains('"') {
        seq!['"'] + repr_body(s, '"') + seq!['"']
    } else {
        seq!['\''] + repr_body(s, '\'') + seq!['\'']
    }
}

fn push_hex(out: &mut Vec<char>, v: u32, n: usize)
    requires
        n <= 8,
    ensures
        final(out)@ == old(out)@ + hex_digits(v as nat, n as nat),
    decreases n,
{
    if n == 0 {
        return;
    }
    let digits = ['0', '1', '2', '3', '4', '5', '6', '7', '8', '9', 'a', 'b', 'c', 'd', 'e', 'f'];
    assert(digits@ =~= seq!['0', '1', '2', '3', '4', '5', '6', '7', '8', '9', 'a', 'b', 'c', 'd', 'e', 'f']);
    push_hex(out, v / 16, n - 1);
    out.push(digits[(v % 16) as usize]);
    assert(final(out)@ =~= old(out)@ + hex_digits(v as nat, n as nat));
}

fn push_repr_char(out: &mut Vec<char>, c: char, quote: char)
    ensures
        final(out)@ == old(out)@ + repr_char(c, quote),
{
    let code = c as u32;
    if c == '\\' {
        out.push('\\');
        out.push('\\');
    } else if c == quote {
        out.push('\\');
        out.push(quote);
    } else if c == '\t' {
        out.push('\\');
        out.push('t');
    } else if c == '\n' {
        out.push('\\');
        out.push('n');
    } else if c == '\r' {
        out.push('\\');
        out.push('r');
    } else if is_non_printable(code) {
        out.push('\\');
        if code < 0x100 {
            out.push('x');
            push_hex(out, code, 2);
        } else if code < 0x10000 {
            out.push('u');
            push_hex(out, code, 4);
        } else {
            out.push('U');
            push_hex(out, code, 8);
        }
    } else {
        out.push(c);
    }
    assert(final(out)@ =~= old(out)@ + repr_char(c, quote));
}

fn push_py_quoted(out: &mut Vec<char>, s: &str)
    ensures
        final(out)@ == old(out)@ + py_quote(s@),
{
    let cs = chars_of(s);
    let quote = if has_char(&cs, '\'') && !has_char(&cs, '"') {
        '"'
    } else {
        '\''
    };
    out.push(quote);
    let ghost start = out@;
    let mut i: usize = 0;
    while i < cs.len()
        invariant
            i <= cs@.len(),
            cs@ == s@,
            out@ == start + repr_body(cs@.take(i as int), quote),
        decreases cs@.len() - i,
    {
        assert(cs@.take(i + 1).drop_last() =~= cs@.take(i as int));
        push_repr_char(out, cs[i], quote);
        assert(out@ =~= start + repr_body(cs@.take(i + 1), quote));
        i = i + 1;
    }
    assert(cs@.take(cs@.len() as int) =~= cs@);
    out.push(quote);
    assert(final(out)@ =~= old(out)@ + py_quote(s@));
}

/// Python `repr()` of a string.
pub fn py_str_repr(s: &str) -> (r: String)
    ensures
        r@ == py_quote(s@),
{
    let mut out: Vec<char> = Vec::new();
    push_py_quoted(&mut out, s);
    assert(out@ =~= py_quote(s@));
    string_of(&out)
}

/// Python `repr()` of a list of strings.
pub open spec fn py_list_quote(items: Seq<Seq<char>>) -> Seq<char> {
    seq!['['] + join(items.map_values(|s: Seq<char>| py_quote(s)), ", "@) + seq![']']
}

/// Python `repr()` of a list of strings.
pub fn py_str_list_repr(items: &Vec<String>) -> (r: String)
    ensures
        r@ == py_list_quote(strings_view(items@)),
{
    let mut parts: Vec<Vec<char>> = Vec::new();
    let mut i: usize = 0;
    while i < items.len()
        invariant
            i <= items@.len(),
            parts@.len() == i,
            forall|k: int| 0 <= k < i ==> (#[trigger] parts@[k])@ == py_quote(items@[k]@),
        decreases items@.len() - i,
    {
        let mut p: Vec<char> = Vec::new();
        push_py_quoted(&mut p, items[i].as_str());
        assert(p@ =~= py_quote(items@[i as int]@));
        parts.push(p);
        i = i + 1;
    }
    assert(parts@.map_values(|p: Vec<char>| p@) =~= strings_view(items@).map_values(
        |s: Seq<char>| py_quote(s),
    ));
    let joined = join_chars(&parts, &[',', ' ']);
    proof {
        reveal_strlit(", ");
    }
    assert([',', ' ']@ =~= ", "@);
    let mut out: Vec<char> = Vec::new();
    out.push('[');
    push_all(&mut out, &joined);
    out.push(']');
    assert(out@ =~= py_list_quote(strings_view(items@)));
    string_of(&out)
}

/// Python `repr()` of a parsed JSON value: `None`, `True`/`False`, numbers
/// as serde renders them, quoted strings, list and dict literals.
pub open spec fn py_repr_text(v: JsonV) -> Seq<char>
    decreases v, 0nat,
{
    match v {
        JsonV::Null => "None"@,
        JsonV::Bool(b) => if b {
            "True"@
        } else {
            "False"@
        },
        JsonV::Num(n) => number_text(n),
        JsonV::Str(s) => py_quote(s),
        JsonV::Arr(a) => seq!['['] + py_items_text(a) + seq![']'],
        JsonV::Obj(m) => seq!['{'] + py_members_text(m) + seq!['}'],
    }
}

/// The `, `-separated reprs of list items.
pub open spec fn py_items_text(a: Seq<JsonV>) -> Seq<char>
    decreases a, a.len(),
{
    if a.len() == 0 {
        seq![]
    } else if a.len() == 1 {
        py_repr_text(a[0])
    } else {
        py_items_text(a.subrange(0, a.len() - 1)) + seq![',', ' '] + py_repr_text(a[a.len() - 1])
    }
}

/// The `, `-separated `'key': value` reprs of dict members.
pub open spec fn py_members_text(m: Seq<(Seq<char>, JsonV)>) -> Seq<char>
    decreases m, m.len(),
{
    if m.len() == 0 {
        seq![]
    } else if m.len() == 1 {
        py_quote(m[0].0) + seq![':', ' '] + py_repr_text(m[0].1)
    } else {
        py_members_text(m.subrange(0, m.len() - 1)) + seq![',', ' '] + py_quote(m[m.len() - 1].0)
            + seq![':', ' '] + py_repr_text(m[m.len() - 1].1)
    }
}

#[verifier::loop_isolation(false)]
#[verifier::rlimit(50)]
#[verifier::spinoff_prover]
fn push_py_repr(v: &Json, out: &mut Vec<char>)
    ensures
        final(out)@ == old(out)@ + py_repr_text(v@),
    decreases v,
{
    match v {
        Json::Null => {
            push_all(out, &['N', 'o', 'n', 'e']);
            proof {
                reveal_strlit("None");
            }
            assert(final(out)@ =~= old(out)@ + py_repr_text(v@));
        },
        Json::Bool(b) => {
            if *b {
                push_all(out, &['T', 'r', 'u', 'e']);
                proof {
                    reveal_strlit("True");
                }
            } else {
                push_all(out, &['F', 'a', 'l', 's', 'e']);
                proof {
                    reveal_strlit("False");
                }
            }
            assert(final(out)@ =~= old(out)@ + py_repr_text(v@));
        },
        Json::Number(n) => {
            let t = n.text();
            let tc = chars_of(t.as_str());
            push_all(out, &tc);
        },
        Json::Str(s) => {
            push_py_quoted(out, s.as_str());
        },
        Json::Array(a) => {
            out.push('[');
            let ghost start = out@;
            let ghost vs = view_seq(a@);
            proof {
                lemma_view_seq(a@);
            }
            let mut i: usize = 0;
            while i < a.len()
                invariant
                    i <= a@.len(),
                    vs == view_seq(a@),
                    vs.len() == a@.len(),
                    forall|j: int| 0 <= j < a@.len() ==> #[trigger] vs[j] == view_json(a@[j]),
                    out@ == start + py_items_text(vs.take(i as int)),
                decreases a@.len() - i,
            {
                proof {
                    assert(decreases_to!(*v => *a));
                    assert(decreases_to!(*a => a@));
                    assert(decreases_to!(a@ => a@[i as int]));
                }
                if i > 0 {
                    out.push(',');
                    out.push(' ');
                }
                push_py_repr(&a[i], out);
                assert(vs.take(i + 1).subrange(0, i as int) =~= vs.take(i as int));
                assert(vs.take(i + 1)[i as int] == vs[i as int]);
                if i == 0 {
                    assert(out@ =~= start + py_items_text(vs.take(1)));
                } else {
                    assert(out@ =~= start + py_items_text(vs.take(i + 1)));
                }
                i = i + 1;
            }
            assert(vs.take(a@.len() as int) =~= vs);
            out.push(']');
            assert(final(out)@ =~= old(out)@ + py_repr_text(v@));
        },
        Json::Object(m) => {
            out.push('{');
            let ghost start = out@;
            let ghost vs = view_members(m@);
            proof {
                lemma_view_members(m@);
            }
            let mut i: usize = 0;
            while i < m.len()
                invariant
                    i <= m@.len(),
                    vs == view_members(m@),
                    vs.len() == m@.len(),
                    forall|j: int| 0 <= j < m@.len() ==> #[trigger] vs[j] == (m@[j].0@, view_json(m@[j].1)),
                    out@ == start + py_members_text(vs.take(i as int)),
                decreases m@.len() - i,
            {
                proof {
                    assert(decreases_to!(*v => *m));
                    assert(decreases_to!(*m => m@));
                    assert(decreases_to!(m@ => m@[i as int]));
                    assert(decreases_to!(m@[i as int] => m@[i as int].1));
                }
                if i > 0 {
                    out.push(',');
                    out.push(' ');
                }
                push_py_quoted(out, m[i].0.as_str());
                out.push(':');
                out.push(' ');
                push_py_repr(&m[i].1, out);
                assert(vs.take(i + 1).subrange(0, i as int) =~= vs.take(i as int));
                assert(vs.take(i + 1)[i as int] == vs[i as int]);
                if i == 0 {
                    assert(out@ =~= start + py_members_text(vs.take(1)));
                } else {
                    assert(out@ =~= start + py_members_text(vs.take(i + 1)));
                }
                i = i + 1;
            }
            assert(vs.take(m@.len() as int) =~= vs);
            out.push('}');
            assert(final(out)@ =~= old(out)@ + py_repr_text(v@));
        },
    }
}

/// Python `repr()` of a parsed JSON value.
pub fn py_repr(v: &Json) -> (r: String)
    ensures
        r@ == py_repr_text(v@),
{
    let mut out: Vec<char> = Vec::new();
    push_py_repr(v, &mut out);
    assert(out@ =~= py_repr_text(v@));
    string_of(&out)
}

/// Python `str()` of a parsed JSON value: a string as is, else its repr.
pub open spec fn py_str_text(v: JsonV) -> Seq<char> {
    match v {
        JsonV::Str(s) => s,
        _ => py_repr_text(v),
    }
}

/// Python `str()` of a parsed JSON value.
pub fn py_str(v: &Json) -> (r: String)
    ensures
        r@ == py_str_text(v@),
{
    match v {
        Json::Str(s) => copy_str(s.as_str()),
        _ => py_repr(v),
    }
}

// ---------------------------------------------------------------------------
// Template friendly names
// ---------------------------------------------------------------------------

/// The characters a friendly name may not contain, in message order.
pub open spec fn friendly_name_disallowed() -> Seq<char> {
    seq![',', '"', '\'', '.']
}

/// The message rejecting a template's friendly name, if any.
pub open spec fn friendly_name_error(value: Seq<char>) -> Option<Seq<char>> {
    let found = chars_present(value, friendly_name_disallowed());
    if value.len() > 60 || value.len() < 1 {
        Some(
            "Message template friendly names must be at least 1 character long and less than 60 characters long."@,
        )
    } else if found.len() > 0 {
        Some(
            "Illegal character(s) found in provided message template friendly name : "@
                + py_list_quote(found.map_values(|c: char| seq![c])),
        )
    } else {
        None
    }
}

/// A template's friendly name: 1 to 60 characters, none of `, " ' .`.
pub fn validate_friendly_name(value: &str) -> (r: Result<(), String>)
    ensures
        r is Ok <==> friendly_name_error(value@) is None,
        r matches Err(m) ==> friendly_name_error(value@) == Some(m@),
{
    let chars = chars_of(value);
    let n = chars.len();
    if n > 60 || n < 1 {
        return Err(
            copy_str(
                "Message template friendly names must be at least 1 character long and less than 60 characters long.",
            ),
        );
    }
    let disallowed = [',', '"', '\'', '.'];
    assert(disallowed@ =~= friendly_name_disallowed());
    let found = present_chars(&chars, &disallowed);
    if found.len() > 0 {
        let mut names: Vec<String> = Vec::new();
        let mut i: usize = 0;
        while i < found.len()
            invariant
                i <= found@.len(),
                names@.len() == i,
                forall|k: int| 0 <= k < i ==> (#[trigger] names@[k])@ == seq![found@[k]],
            decreases found@.len() - i,
        {
            let one = [found[i]];
            names.push(string_of(&one));
            assert(one@ =~= seq![found@[i as int]]);
            i = i + 1;
        }
        assert(strings_view(names@) =~= found@.map_values(|c: char| seq![c]));
        let list = py_str_list_repr(&names);
        return Err(concat2("Illegal character(s) found in provided message template friendly name : ", list.as_str()));
    }
    Ok(())
}

// ---------------------------------------------------------------------------
// Patterns
// ---------------------------------------------------------------------------

/// The contents of the `{{...}}` placeholder tags of `s` from `k` on:
/// the leftmost `{{`, then the shortest run up to the next `}}`; the scan
/// resumes after that `}}`.
pub open spec fn tags_from(s: Seq<char>, k: int) -> Seq<Seq<char>>
    decreases s.len() - k,
{
    let i = first_occurrence_from(s, "{{"@, k);
    let j = first_occurrence_from(s, "}}"@, i + 2);
    if k < 0 || k > s.len() || i >= s.len() || j + 2 > s.len() || j + 2 <= k {
        seq![]
    } else {
        seq![s.subrange(i + 2, j)] + tags_from(s, j + 2)
    }
}

/// The placeholder tags of a template's content, in order.
pub open spec fn placeholder_tags(s: Seq<char>) -> Seq<Seq<char>> {
    tags_from(s, 0)
}

/// The captures of `(?s)\{\{(.*?)\}\}` in `content`, by `regex_lite`: the
/// leftmost-first, non-overlapping matches of `{{`, the shortest run of any
/// characters, and `}}`.
#[verifier::external_body]
fn regex_placeholder_tags(content: &str) -> (r: Vec<String>)
    ensures
        strings_view(r@) == placeholder_tags(content@),
{
    let re = regex_lite::Regex::new(r"(?s)\{\{(.*?)\}\}").expect("valid pattern");
    re.captures_iter(content).map(|c| c.get(1).map(|m| m.as_str().to_string()).unwrap_or_default()).collect()
}

/// The placeholder tags `{{name}}` of a template's content, in order.
pub fn extract_placeholder_tags(content: &str) -> (r: Vec<String>)
    ensures
        strings_view(r@) == placeholder_tags(content@),
{
    regex_placeholder_tags(content)
}

/// An ASCII letter or digit.
pub open spec fn is_ascii_alnum(c: char) -> bool {
    ('a' <= c && c <= 'z') || ('A' <= c && c <= 'Z') || ('0' <= c && c <= '9')
}

/// An Octy profile identifier: `profile_` followed by an ASCII letter or
/// digit (what `^profile_[a-zA-Z0-9]` matches).
pub open spec fn is_profile_id_text(s: Seq<char>) -> bool {
    s.len() > 8 && s.take(8) == "profile_"@ && is_ascii_alnum(s[8])
}

/// Whether `^profile_[a-zA-Z0-9]` matches `value`, by `regex_lite`.
#[verifier::external_body]
fn regex_is_profile_id(value: &str) -> (r: bool)
    ensures
        r == is_profile_id_text(value@),
{
    regex_lite::Regex::new(r"^profile_[a-zA-Z0-9]").expect("valid pattern").is_match(value)
}

/// Whether `value` starts like an Octy profile identifier.
pub fn is_profile_id(value: &str) -> (r: bool)
    ensures
        r == is_profile_id_text(value@),
{
    regex_is_profile_id(value)
}

} // verus!

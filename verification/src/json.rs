//! Escaping of text placed inside JSON string literals.
use vstd::prelude::*;
use crate::text::{chars_of, push_char};

verus! {

/// How `escape_json` writes one character.
pub open spec fn json_char(c: char) -> Seq<char> {
    if c == '\\' {
        seq!['\\', '\\']
    } else if c == '"' {
        seq!['\\', '"']
    } else if c == '\n' {
        seq!['\\', 'n']
    } else if c == '\r' {
        seq!['\\', 'r']
    } else if c == '\t' {
        seq!['\\', 't']
    } else {
        seq![c]
    }
}

/// Backslash, quote, newline, carriage return and tab escaped, every other
/// character kept.
pub open spec fn escape_json_spec(s: Seq<char>) -> Seq<char>
    decreases s.len(),
{
    if s.len() == 0 {
        Seq::empty()
    } else {
        escape_json_spec(s.drop_last()) + json_char(s.last())
    }
}

/// How `esc` writes one character.
pub open spec fn esc_char(c: char) -> Seq<char> {
    if c == '\\' {
        seq!['\\', '\\']
    } else if c == '"' {
        seq!['\\', '"']
    } else {
        seq![c]
    }
}

/// Only backslash and quote escaped (the lint report's escaper).
pub open spec fn esc_spec(s: Seq<char>) -> Seq<char>
    decreases s.len(),
{
    if s.len() == 0 {
        Seq::empty()
    } else {
        esc_spec(s.drop_last()) + esc_char(s.last())
    }
}

/// Appends `t` escaped for a JSON string literal.
pub fn push_escape_json(s: &mut String, t: &str)
    ensures
        final(s)@ == old(s)@ + escape_json_spec(t@),
{
    let v = chars_of(t);
    let n = v.len();
    let ghost start = s@;
    for i in 0..n
        invariant
            n == v@.len(),
            v@ == t@,
            s@ == start + escape_json_spec(v@.take(i as int)),
    {
        let c = v[i];
        if c == '\\' {
            push_char(s, '\\');
            push_char(s, '\\');
        } else if c == '"' {
            push_char(s, '\\');
            push_char(s, '"');
        } else if c == '\n' {
            push_char(s, '\\');
            push_char(s, 'n');
        } else if c == '\r' {
            push_char(s, '\\');
            push_char(s, 'r');
        } else if c == '\t' {
            push_char(s, '\\');
            push_char(s, 't');
        } else {
            push_char(s, c);
        }
        proof {
            let p = v@.take(i + 1);
            assert(p.drop_last() =~= v@.take(i as int));
            assert(p.last() == c);
            assert(s@ =~= start + escape_json_spec(p));
        }
    }
    assert(v@.take(n as int) =~= v@);
}

/// `escape_json`: the text escaped for a JSON string literal.
pub fn escape_json(t: &str) -> (r: String)
    ensures
        r@ == escape_json_spec(t@),
{
    let mut r = String::new();
    push_escape_json(&mut r, t);
    assert(Seq::<char>::empty() + escape_json_spec(t@) =~= escape_json_spec(t@));
    r
}

/// Appends `t` with backslash and quote escaped.
pub fn push_esc(s: &mut String, t: &str)
    ensures
        final(s)@ == old(s)@ + esc_spec(t@),
{
    let v = chars_of(t);
    let n = v.len();
    let ghost start = s@;
    for i in 0..n
        invariant
            n == v@.len(),
            v@ == t@,
            s@ == start + esc_spec(v@.take(i as int)),
    {
        let c = v[i];
        if c == '\\' {
            push_char(s, '\\');
            push_char(s, '\\');
        } else if c == '"' {
            push_char(s, '\\');
            push_char(s, '"');
        } else {
            push_char(s, c);
        }
        proof {
            let p = v@.take(i + 1);
            assert(p.drop_last() =~= v@.take(i as int));
            assert(p.last() == c);
            assert(s@ =~= start + esc_spec(p));
        }
    }
    assert(v@.take(n as int) =~= v@);
}

/// `esc`: backslash and quote escaped.
pub fn esc(t: &str) -> (r: String)
    ensures
        r@ == esc_spec(t@),
{
    let mut r = String::new();
    push_esc(&mut r, t);
    assert(Seq::<char>::empty() + esc_spec(t@) =~= esc_spec(t@));
    r
}

} // verus!

//! Cypher string-literal escaping.
//!
//! Every string interpolated into a single-quoted Cypher literal goes through
//! [`escape`]. Backslashes and single quotes are escaped per Cypher's literal
//! grammar; newline, carriage return and tab become their escape-sequence form
//! so that a multi-line payload can never terminate the literal early.
use vstd::prelude::*;
use crate::text::{chars_of, push_char};

verus! {

/// What one input character becomes inside the literal.
pub open spec fn escape_char(c: char) -> Seq<char> {
    if c == '\\' {
        seq!['\\', '\\']
    } else if c == '\'' {
        seq!['\\', '\'']
    } else if c == '\n' {
        seq!['\\', 'n']
    } else if c == '\r' {
        seq!['\\', 'r']
    } else if c == '\t' {
        seq!['\\', 't']
    } else {
        seq![c]
    }
}

/// The escaped form of a whole string: each character escaped in turn.
pub open spec fn escape_spec(s: Seq<char>) -> Seq<char>
    decreases s.len(),
{
    if s.len() == 0 {
        Seq::empty()
    } else {
        escape_spec(s.drop_last()) + escape_char(s.last())
    }
}

/// The character denoted by the escape sequence `\x`.
pub open spec fn unescape_pair(x: char) -> char {
    if x == 'n' {
        '\n'
    } else if x == 'r' {
        '\r'
    } else if x == 't' {
        '\t'
    } else {
        x
    }
}

/// Reads the body of a single-quoted Cypher literal back into the string it
/// denotes: `\x` is one escaped character, anything else stands for itself.
pub open spec fn unescape_spec(t: Seq<char>) -> Seq<char>
    decreases t.len(),
{
    if t.len() == 0 {
        Seq::empty()
    } else if t[0] == '\\' && t.len() >= 2 {
        seq![unescape_pair(t[1])] + unescape_spec(t.skip(2))
    } else {
        seq![t[0]] + unescape_spec(t.skip(1))
    }
}

/// A literal body that cannot end the literal early: read from the left,
/// every backslash opens a two-character escape, and no bare single quote,
/// newline, carriage return or tab appears.
pub open spec fn safe_literal_body(t: Seq<char>) -> bool
    decreases t.len(),
{
    if t.len() == 0 {
        true
    } else if t[0] == '\\' {
        t.len() >= 2 && safe_literal_body(t.skip(2))
    } else {
        t[0] != '\'' && t[0] != '\n' && t[0] != '\r' && t[0] != '\t' && safe_literal_body(
            t.skip(1),
        )
    }
}

/// Escapes `s` for interpolation into a single-quoted Cypher string literal.
pub fn escape(s: &str) -> (out: String)
    ensures
        out@ == escape_spec(s@),
{
    let cs = chars_of(s);
    let mut out = String::new();
    let mut i: usize = 0;
    while i < cs.len()
        invariant
            i <= cs@.len(),
            cs@ == s@,
            out@ == escape_spec(cs@.take(i as int)),
        decreases cs@.len() - i,
    {
        let c = cs[i];
        if c == '\\' {
            push_char(&mut out, '\\');
            push_char(&mut out, '\\');
        } else if c == '\'' {
            push_char(&mut out, '\\');
            push_char(&mut out, '\'');
        } else if c == '\n' {
            push_char(&mut out, '\\');
            push_char(&mut out, 'n');
        } else if c == '\r' {
            push_char(&mut out, '\\');
            push_char(&mut out, 'r');
        } else if c == '\t' {
            push_char(&mut out, '\\');
            push_char(&mut out, 't');
        } else {
            push_char(&mut out, c);
        }
        assert(cs@.take(i + 1).drop_last() =~= cs@.take(i as int));
        i = i + 1;
    }
    assert(cs@.take(cs@.len() as int) =~= cs@);
    out
}

/// Escaping distributes over concatenation.
pub proof fn lemma_escape_concat(a: Seq<char>, b: Seq<char>)
    ensures
        escape_spec(a + b) == escape_spec(a) + escape_spec(b),
    decreases b.len(),
{
    if b.len() == 0 {
        assert(a + b =~= a);
        assert(escape_spec(a) + escape_spec(b) =~= escape_spec(a));
    } else {
        lemma_escape_concat(a, b.drop_last());
        assert((a + b).drop_last() =~= a + b.drop_last());
        assert((a + b).last() == b.last());
        assert(escape_spec(a) + escape_spec(b) =~= escape_spec(a) + escape_spec(b.drop_last())
            + escape_char(b.last()));
    }
}

/// Escaping one leading character, then the rest.
pub proof fn lemma_escape_cons(s: Seq<char>)
    requires
        s.len() > 0,
    ensures
        escape_spec(s) == escape_char(s[0]) + escape_spec(s.skip(1)),
{
    lemma_escape_concat(seq![s[0]], s.skip(1));
    assert(seq![s[0]] + s.skip(1) =~= s);
    let one = seq![s[0]];
    assert(one.drop_last() =~= Seq::<char>::empty());
    assert(one.last() == s[0]);
    assert(escape_spec(one) == escape_spec(one.drop_last()) + escape_char(one.last()));
    assert(escape_spec(Seq::<char>::empty()) + escape_char(s[0]) =~= escape_char(s[0]));
}

/// Law: an escaped string can never terminate the literal it is placed in.
pub proof fn escape_is_safe_literal(s: Seq<char>)
    ensures
        safe_literal_body(escape_spec(s)),
    decreases s.len(),
{
    if s.len() > 0 {
        lemma_escape_cons(s);
        escape_is_safe_literal(s.skip(1));
        let e = escape_spec(s);
        let head = escape_char(s[0]);
        let rest = escape_spec(s.skip(1));
        if head.len() == 2 {
            assert(e.skip(2) =~= rest);
        } else {
            assert(e.skip(1) =~= rest);
        }
    }
}

/// Law: reading the literal back gives the original string, so distinct
/// inputs always produce distinct literals.
pub proof fn unescape_escape_roundtrip(s: Seq<char>)
    ensures
        unescape_spec(escape_spec(s)) == s,
    decreases s.len(),
{
    if s.len() > 0 {
        lemma_escape_cons(s);
        unescape_escape_roundtrip(s.skip(1));
        let e = escape_spec(s);
        let head = escape_char(s[0]);
        let rest = escape_spec(s.skip(1));
        if head.len() == 2 {
            assert(e.skip(2) =~= rest);
        } else {
            assert(e.skip(1) =~= rest);
        }
        assert(seq![s[0]] + s.skip(1) =~= s);
    }
}

} // verus!

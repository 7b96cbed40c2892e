//! Escaping of label text before it is embedded in a quoted, record-shaped
//! DOT caption. Each structurally significant character — backslash, double
//! quote, `{`, `}`, `|`, `<`, `>` — is individually backslash-escaped; every
//! other character passes through unchanged. The underlying format has no
//! fully safe embedding of arbitrary text, so only these structural
//! characters are covered.

use crate::names::push_char;
use vstd::prelude::*;
use vstd::string::StrSliceExecFns;

verus! {

/// Whether `c` is structurally significant inside a quoted record caption
/// and must therefore be backslash-escaped.
pub open spec fn needs_escape(c: char) -> bool {
    c == '\\' || c == '"' || c == '{' || c == '}' || c == '|' || c == '<' || c == '>'
}

/// What one character of label text becomes in the escaped output.
pub open spec fn escaped_char(c: char) -> Seq<char> {
    if needs_escape(c) {
        seq!['\\', c]
    } else {
        seq![c]
    }
}

/// The escaped form of a whole label.
pub open spec fn escape_seq(s: Seq<char>) -> Seq<char>
    decreases s.len(),
{
    if s.len() == 0 {
        Seq::empty()
    } else {
        escaped_char(s[0]) + escape_seq(s.skip(1))
    }
}

/// Escaping works character by character from the left, so it also works one
/// character at a time from the right.
proof fn lemma_escape_seq_push(s: Seq<char>, c: char)
    ensures
        escape_seq(s.push(c)) == escape_seq(s) + escaped_char(c),
    decreases s.len(),
{
    if s.len() == 0 {
        assert(s.push(c).skip(1) =~= Seq::<char>::empty());
        assert(escape_seq(Seq::<char>::empty()) == Seq::<char>::empty());
        assert(s.push(c)[0] == c);
        assert(escape_seq(s.push(c)) == escaped_char(c) + escape_seq(Seq::<char>::empty()));
        assert(escape_seq(s.push(c)) =~= escape_seq(s) + escaped_char(c));
    } else {
        assert(s.push(c).skip(1) =~= s.skip(1).push(c));
        assert(s.push(c)[0] == s[0]);
        lemma_escape_seq_push(s.skip(1), c);
        assert(escape_seq(s.push(c)) == escaped_char(s[0]) + (escape_seq(s.skip(1))
            + escaped_char(c)));
        assert(escape_seq(s.push(c)) =~= escape_seq(s) + escaped_char(c));
    }
}

/// Whether `c` is structurally significant, decided at run time.
fn char_needs_escape(c: char) -> (b: bool)
    ensures
        b == needs_escape(c),
{
    c == '\\' || c == '"' || c == '{' || c == '}' || c == '|' || c == '<' || c == '>'
}

/// Escapes a label for embedding in a quoted record caption.
pub fn escape_dot_label(s: &str) -> (r: String)
    ensures
        r@ == escape_seq(s@),
{
    let n = s.unicode_len();
    let mut r = String::new();
    let mut i: usize = 0;
    while i < n
        invariant
            i <= n,
            n == s@.len(),
            r@ == escape_seq(s@.take(i as int)),
        decreases n - i,
    {
        let c = s.get_char(i);
        proof {
            lemma_escape_seq_push(s@.take(i as int), c);
            assert(s@.take(i + 1 as int) =~= s@.take(i as int).push(s@[i as int]));
        }
        if char_needs_escape(c) {
            push_char(&mut r, '\\');
            push_char(&mut r, c);
            proof {
                assert(r@ =~= escape_seq(s@.take(i + 1 as int)));
            }
        } else {
            push_char(&mut r, c);
            proof {
                assert(r@ =~= escape_seq(s@.take(i + 1 as int)));
            }
        }
        i = i + 1;
    }
    proof {
        assert(s@.take(n as int) =~= s@);
    }
    r
}

/// Escaped text, read from the left, is a chain of blocks: either a single
/// character that is not structurally significant, or a backslash followed by
/// the structural character it escapes. In such text no structural character
/// stands unescaped.
pub open spec fn well_escaped(t: Seq<char>) -> bool
    decreases t.len(),
{
    if t.len() == 0 {
        true
    } else if !needs_escape(t[0]) {
        well_escaped(t.skip(1))
    } else {
        t[0] == '\\' && t.len() >= 2 && needs_escape(t[1]) && well_escaped(t.skip(2))
    }
}

/// Safety: the escaped form of any label is well escaped — it contains no
/// unescaped occurrence of a structurally significant character.
pub proof fn lemma_escape_safe(s: Seq<char>)
    ensures
        well_escaped(escape_seq(s)),
    decreases s.len(),
{
    if s.len() > 0 {
        lemma_escape_safe(s.skip(1));
        let rest = escape_seq(s.skip(1));
        let t = escape_seq(s);
        if needs_escape(s[0]) {
            assert(t == seq!['\\', s[0]] + rest);
            assert(t.len() >= 2);
            assert(t[0] == '\\' && needs_escape(t[1]));
            assert(t.skip(2) =~= rest);
        } else {
            assert(t == seq![s[0]] + rest);
            assert(t[0] == s[0]);
            assert(t.skip(1) =~= rest);
        }
    }
}

/// Identity: escaping a label that is already free of structurally
/// significant characters changes nothing.
pub proof fn lemma_escape_identity(s: Seq<char>)
    requires
        forall|i: int| 0 <= i < s.len() ==> !needs_escape(s[i]),
    ensures
        escape_seq(s) == s,
    decreases s.len(),
{
    if s.len() > 0 {
        assert(forall|i: int| 0 <= i < s.skip(1).len() ==> s.skip(1)[i] == s[i + 1]);
        lemma_escape_identity(s.skip(1));
        assert(escape_seq(s) =~= s);
    }
}

} // verus!

//! Vertex and port names: a one-letter prefix, an underscore, and the decimal
//! rendering of a dense index (`n_0`, `e_12`, `s_3`). Distinct indices give
//! distinct names, which keeps every generated vertex addressable.

use vstd::prelude::*;
use vstd::string::StringExecFns;

verus! {

/// The character for a single decimal digit.
pub open spec fn digit_char(d: nat) -> char {
    if d == 0 {
        '0'
    } else if d == 1 {
        '1'
    } else if d == 2 {
        '2'
    } else if d == 3 {
        '3'
    } else if d == 4 {
        '4'
    } else if d == 5 {
        '5'
    } else if d == 6 {
        '6'
    } else if d == 7 {
        '7'
    } else if d == 8 {
        '8'
    } else {
        '9'
    }
}

/// The decimal digits of `n`, most significant first, without leading zeros.
pub open spec fn decimal(n: nat) -> Seq<char>
    decreases n,
{
    if n < 10 {
        seq![digit_char(n)]
    } else {
        decimal(n / 10).push(digit_char(n % 10))
    }
}

/// The name written for slot or index `k` behind the one-letter prefix `p`.
pub open spec fn indexed_name(p: char, k: nat) -> Seq<char> {
    seq![p, '_'] + decimal(k)
}

/// The name of the point vertex drawn for hypergraph node `i`.
pub open spec fn node_name(i: nat) -> Seq<char> {
    indexed_name('n', i)
}

/// The name of the record vertex drawn for hyperedge `j`.
pub open spec fn edge_name(j: nat) -> Seq<char> {
    indexed_name('e', j)
}

/// Relies on `String::push`: appends one character at the end.
#[verifier::external_body]
pub(crate) fn push_char(s: &mut String, c: char)
    ensures
        final(s)@ == old(s)@.push(c),
{
    s.push(c);
}

/// The character for the decimal digit `d`.
fn digit_to_char(d: usize) -> (c: char)
    requires
        d < 10,
    ensures
        c == digit_char(d as nat),
{
    match d {
        0 => '0',
        1 => '1',
        2 => '2',
        3 => '3',
        4 => '4',
        5 => '5',
        6 => '6',
        7 => '7',
        8 => '8',
        _ => '9',
    }
}

/// The decimal rendering of `n`.
pub fn decimal_str(n: usize) -> (r: String)
    ensures
        r@ == decimal(n as nat),
    decreases n,
{
    if n < 10 {
        let mut s = String::new();
        push_char(&mut s, digit_to_char(n));
        proof {
            assert(s@ =~= seq![digit_char(n as nat)]);
        }
        s
    } else {
        let mut s = decimal_str(n / 10);
        push_char(&mut s, digit_to_char(n % 10));
        s
    }
}

/// The name for slot or index `k` behind the prefix `p`, as a `String`.
pub fn indexed_name_str(p: char, k: usize) -> (r: String)
    ensures
        r@ == indexed_name(p, k as nat),
{
    let mut s = String::new();
    push_char(&mut s, p);
    push_char(&mut s, '_');
    let d = decimal_str(k);
    s.append(d.as_str());
    proof {
        assert(s@ =~= seq![p, '_'] + decimal(k as nat));
    }
    s
}

/// The name of the point vertex for node `i`, as a `String`.
pub fn node_name_str(i: usize) -> (r: String)
    ensures
        r@ == node_name(i as nat),
{
    indexed_name_str('n', i)
}

/// The name of the record vertex for hyperedge `j`, as a `String`.
pub fn edge_name_str(j: usize) -> (r: String)
    ensures
        r@ == edge_name(j as nat),
{
    indexed_name_str('e', j)
}

proof fn lemma_decimal_len(n: nat)
    ensures
        decimal(n).len() >= 1,
        n >= 10 ==> decimal(n).len() >= 2,
    decreases n,
{
    if n >= 10 {
        lemma_decimal_len(n / 10);
    }
}

proof fn lemma_digit_char_injective(a: nat, b: nat)
    requires
        a < 10,
        b < 10,
        digit_char(a) == digit_char(b),
    ensures
        a == b,
{
    assert(a == b) by {
        assert(digit_char(a) == digit_char(b));
        assert('0' != '1' && '0' != '2' && '0' != '3' && '0' != '4' && '0' != '5' && '0' != '6'
            && '0' != '7' && '0' != '8' && '0' != '9');
        assert('1' != '2' && '1' != '3' && '1' != '4' && '1' != '5' && '1' != '6' && '1' != '7'
            && '1' != '8' && '1' != '9');
        assert('2' != '3' && '2' != '4' && '2' != '5' && '2' != '6' && '2' != '7' && '2' != '8'
            && '2' != '9');
        assert('3' != '4' && '3' != '5' && '3' != '6' && '3' != '7' && '3' != '8' && '3' != '9');
        assert('4' != '5' && '4' != '6' && '4' != '7' && '4' != '8' && '4' != '9');
        assert('5' != '6' && '5' != '7' && '5' != '8' && '5' != '9');
        assert('6' != '7' && '6' != '8' && '6' != '9');
        assert('7' != '8' && '7' != '9');
        assert('8' != '9');
    }
}

proof fn lemma_decimal_injective(a: nat, b: nat)
    requires
        decimal(a) == decimal(b),
    ensures
        a == b,
    decreases a + b,
{
    if a < 10 && b < 10 {
        assert(decimal(a) == seq![digit_char(a)]);
        assert(decimal(b) == seq![digit_char(b)]);
        assert(seq![digit_char(a)][0] == digit_char(a));
        assert(seq![digit_char(b)][0] == digit_char(b));
        lemma_digit_char_injective(a, b);
    } else if a < 10 {
        lemma_decimal_len(b);
        assert(decimal(a).len() == 1);
    } else if b < 10 {
        lemma_decimal_len(a);
        assert(decimal(b).len() == 1);
    } else {
        let sa = decimal(a / 10);
        let sb = decimal(b / 10);
        assert(decimal(a).len() == sa.len() + 1);
        assert(decimal(b).len() == sb.len() + 1);
        assert(decimal(a).last() == digit_char(a % 10));
        assert(decimal(b).last() == digit_char(b % 10));
        lemma_digit_char_injective(a % 10, b % 10);
        assert(sa =~= decimal(a).drop_last());
        assert(sb =~= decimal(b).drop_last());
        lemma_decimal_injective(a / 10, b / 10);
        assert(a == (a / 10) * 10 + a % 10);
        assert(b == (b / 10) * 10 + b % 10);
    }
}

/// Names are a bijective function of the index: behind one prefix, two
/// distinct indices always get distinct names.
pub proof fn lemma_indexed_names_injective(p: char, i: nat, j: nat)
    requires
        i != j,
    ensures
        indexed_name(p, i) != indexed_name(p, j),
{
    seq![p, '_'].lemma_concat_injective(decimal(i), decimal(j));
    if decimal(i) == decimal(j) {
        lemma_decimal_injective(i, j);
        assert(false);
    }
}

/// Two distinct nodes are drawn as vertices with distinct names.
pub proof fn lemma_node_names_injective(i: nat, j: nat)
    requires
        i != j,
    ensures
        node_name(i) != node_name(j),
{
    lemma_indexed_names_injective('n', i, j);
}

/// Two distinct hyperedges are drawn as vertices with distinct names.
pub proof fn lemma_edge_names_injective(i: nat, j: nat)
    requires
        i != j,
    ensures
        edge_name(i) != edge_name(j),
{
    lemma_indexed_names_injective('e', i, j);
}

/// A node vertex never shares its name with a hyperedge vertex: the two
/// families use different prefixes.
pub proof fn lemma_node_edge_names_differ(i: nat, j: nat)
    ensures
        node_name(i) != edge_name(j),
{
    assert(node_name(i)[0] == 'n');
    assert(edge_name(j)[0] == 'e');
}

} // verus!

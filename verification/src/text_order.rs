//! Lexicographic order on strings, used to keep field and model names sorted.

use vstd::prelude::*;
use vstd::string::StrSliceExecFns;

verus! {

/// Strict lexicographic order on character sequences, comparing characters by
/// Unicode scalar value. Since UTF-8 preserves scalar order byte-wise, this is
/// the same order `Ord` on `str` gives.
pub open spec fn lex_lt(a: Seq<char>, b: Seq<char>) -> bool
    decreases a.len(),
{
    if b.len() == 0 {
        false
    } else if a.len() == 0 {
        true
    } else if (a[0] as u32) < (b[0] as u32) {
        true
    } else if (b[0] as u32) < (a[0] as u32) {
        false
    } else {
        lex_lt(a.drop_first(), b.drop_first())
    }
}

/// Two characters with the same Unicode scalar value are the same character.
proof fn lemma_char_eq(c1: char, c2: char)
    requires
        (c1 as u32) == (c2 as u32),
    ensures
        c1 == c2,
{
    vstd::utf8::char_u32_cast(c1, c1 as u32);
    vstd::utf8::char_u32_cast(c2, c2 as u32);
}

pub proof fn lemma_lex_lt_irrefl(a: Seq<char>)
    ensures
        !lex_lt(a, a),
    decreases a.len(),
{
    if a.len() > 0 {
        lemma_lex_lt_irrefl(a.drop_first());
    }
}

pub proof fn lemma_lex_lt_asym(a: Seq<char>, b: Seq<char>)
    requires
        lex_lt(a, b),
    ensures
        !lex_lt(b, a),
    decreases a.len(),
{
    if a.len() > 0 && b.len() > 0 && (a[0] as u32) == (b[0] as u32) {
        lemma_lex_lt_asym(a.drop_first(), b.drop_first());
    }
}

pub proof fn lemma_lex_lt_trans(a: Seq<char>, b: Seq<char>, c: Seq<char>)
    requires
        lex_lt(a, b),
        lex_lt(b, c),
    ensures
        lex_lt(a, c),
    decreases a.len(),
{
    if a.len() > 0 && b.len() > 0 && c.len() > 0 && (a[0] as u32) >= (c[0] as u32) {
        lemma_lex_lt_trans(a.drop_first(), b.drop_first(), c.drop_first());
    }
}

/// The order is total: two sequences neither of which precedes the other are equal.
pub proof fn lemma_lex_lt_connected(a: Seq<char>, b: Seq<char>)
    requires
        !lex_lt(a, b),
        !lex_lt(b, a),
    ensures
        a == b,
    decreases a.len(),
{
    if a.len() > 0 && b.len() > 0 {
        lemma_char_eq(a[0], b[0]);
        lemma_lex_lt_connected(a.drop_first(), b.drop_first());
        assert(a =~= seq![a[0]] + a.drop_first());
        assert(b =~= seq![b[0]] + b.drop_first());
    } else {
        assert(a =~= b);
    }
}

proof fn lemma_lex_lt_at(a: Seq<char>, b: Seq<char>, i: int)
    requires
        0 <= i < a.len(),
        i < b.len(),
        forall|j: int| 0 <= j < i ==> a[j] == b[j],
        (a[i] as u32) < (b[i] as u32),
    ensures
        lex_lt(a, b),
    decreases i,
{
    if i > 0 {
        lemma_lex_lt_at(a.drop_first(), b.drop_first(), i - 1);
    }
}

proof fn lemma_lex_lt_proper_prefix(a: Seq<char>, b: Seq<char>)
    requires
        a.len() < b.len(),
        forall|j: int| 0 <= j < a.len() ==> a[j] == b[j],
    ensures
        lex_lt(a, b),
    decreases a.len(),
{
    if a.len() > 0 {
        lemma_lex_lt_proper_prefix(a.drop_first(), b.drop_first());
    }
}

/// Result of comparing two strings in the lexicographic order.
#[derive(Clone, Copy, PartialEq, Eq, Structural, Debug)]
pub enum NameOrder {
    Less,
    Equal,
    Greater,
}

/// Compares two strings in the lexicographic order `lex_lt`.
pub fn str_compare(a: &str, b: &str) -> (r: NameOrder)
    ensures
        (r == NameOrder::Less) == lex_lt(a@, b@),
        (r == NameOrder::Equal) == (a@ == b@),
        (r == NameOrder::Greater) == lex_lt(b@, a@),
{
    let a_len = a.unicode_len();
    let b_len = b.unicode_len();
    let n = if a_len < b_len {
        a_len
    } else {
        b_len
    };
    let mut i: usize = 0;
    while i < n
        invariant
            0 <= i <= n,
            n <= a_len,
            n <= b_len,
            n == a_len || n == b_len,
            a_len == a@.len(),
            b_len == b@.len(),
            forall|j: int| 0 <= j < i ==> a@[j] == b@[j],
        decreases n - i,
    {
        let ca = a.get_char(i);
        let cb = b.get_char(i);
        if (ca as u32) < (cb as u32) {
            proof {
                lemma_lex_lt_at(a@, b@, i as int);
                lemma_lex_lt_asym(a@, b@);
                lemma_lex_lt_irrefl(a@);
            }
            return NameOrder::Less;
        }
        if (cb as u32) < (ca as u32) {
            proof {
                lemma_lex_lt_at(b@, a@, i as int);
                lemma_lex_lt_asym(b@, a@);
                lemma_lex_lt_irrefl(a@);
            }
            return NameOrder::Greater;
        }
        proof {
            lemma_char_eq(ca, cb);
        }
        i += 1;
    }
    if a_len == b_len {
        proof {
            assert(a@ =~= b@);
            lemma_lex_lt_irrefl(a@);
        }
        NameOrder::Equal
    } else if a_len < b_len {
        proof {
            lemma_lex_lt_proper_prefix(a@, b@);
            lemma_lex_lt_asym(a@, b@);
            lemma_lex_lt_irrefl(a@);
        }
        NameOrder::Less
    } else {
        proof {
            lemma_lex_lt_proper_prefix(b@, a@);
            lemma_lex_lt_asym(b@, a@);
            lemma_lex_lt_irrefl(a@);
        }
        NameOrder::Greater
    }
}

} // verus!

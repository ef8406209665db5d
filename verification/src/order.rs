//! The order of account keys: every player before every named account,
//! players by the bytes of their UUID and named accounts by the characters of
//! their names, each compared lexicographically.
use vstd::prelude::*;

use crate::proto::IdView;

verus! {

/// Whether `a` comes strictly before `b` in lexicographic order.
pub open spec fn lex_before(a: Seq<int>, b: Seq<int>) -> bool
    decreases a.len(),
{
    if a.len() == 0 {
        b.len() > 0
    } else if b.len() == 0 {
        false
    } else if a[0] != b[0] {
        a[0] < b[0]
    } else {
        lex_before(a.drop_first(), b.drop_first())
    }
}

/// The bytes of a sequence as numbers.
pub open spec fn byte_codes(s: Seq<u8>) -> Seq<int> {
    s.map_values(|b: u8| b as int)
}

/// The characters of a sequence as their code points.
pub open spec fn char_codes(s: Seq<char>) -> Seq<int> {
    s.map_values(|c: char| c as int)
}

/// Whether key `a` comes strictly before key `b`.
pub open spec fn key_before(a: IdView, b: IdView) -> bool {
    match (a, b) {
        (IdView::Player(x), IdView::Player(y)) => lex_before(byte_codes(x), byte_codes(y)),
        (IdView::Player(_), IdView::Named(_)) => true,
        (IdView::Named(_), IdView::Player(_)) => false,
        (IdView::Named(x), IdView::Named(y)) => lex_before(char_codes(x), char_codes(y)),
    }
}

proof fn lemma_lex_irreflexive(a: Seq<int>)
    ensures
        !lex_before(a, a),
    decreases a.len(),
{
    if a.len() > 0 {
        lemma_lex_irreflexive(a.drop_first());
    }
}

proof fn lemma_lex_transitive(a: Seq<int>, b: Seq<int>, c: Seq<int>)
    requires
        lex_before(a, b),
        lex_before(b, c),
    ensures
        lex_before(a, c),
    decreases a.len(),
{
    if a.len() > 0 && b.len() > 0 && c.len() > 0 && a[0] == b[0] && b[0] == c[0] {
        lemma_lex_transitive(a.drop_first(), b.drop_first(), c.drop_first());
    }
}

proof fn lemma_lex_total(a: Seq<int>, b: Seq<int>)
    requires
        a != b,
    ensures
        lex_before(a, b) || lex_before(b, a),
    decreases a.len(),
{
    if a.len() == 0 && b.len() == 0 {
        assert(a =~= b);
    }
    if a.len() > 0 && b.len() > 0 && a[0] == b[0] {
        if a.drop_first() =~= b.drop_first() {
            assert forall|i: int| 0 <= i < a.len() implies a[i] == b[i] by {
                if i > 0 {
                    assert(a[i] == a.drop_first()[i - 1]);
                    assert(b[i] == b.drop_first()[i - 1]);
                }
            }
            assert(a =~= b);
        }
        lemma_lex_total(a.drop_first(), b.drop_first());
    }
}

/// Past a common prefix of length `i`, the order is decided by what follows.
pub proof fn lemma_lex_common_prefix(a: Seq<int>, b: Seq<int>, i: int)
    requires
        0 <= i <= a.len(),
        i <= b.len(),
        forall|j: int| 0 <= j < i ==> a[j] == b[j],
    ensures
        lex_before(a, b) == lex_before(a.skip(i), b.skip(i)),
    decreases i,
{
    if i == 0 {
        assert(a.skip(0) =~= a);
        assert(b.skip(0) =~= b);
    } else {
        assert(a[0] == b[0]);
        let a1 = a.drop_first();
        let b1 = b.drop_first();
        assert forall|j: int| 0 <= j < i - 1 implies a1[j] == b1[j] by {
            assert(a1[j] == a[j + 1]);
            assert(b1[j] == b[j + 1]);
        }
        lemma_lex_common_prefix(a1, b1, i - 1);
        assert(a1.skip(i - 1) =~= a.skip(i));
        assert(b1.skip(i - 1) =~= b.skip(i));
    }
}

/// No key comes before itself.
pub proof fn lemma_key_irreflexive(a: IdView)
    ensures
        !key_before(a, a),
{
    match a {
        IdView::Player(x) => lemma_lex_irreflexive(byte_codes(x)),
        IdView::Named(x) => lemma_lex_irreflexive(char_codes(x)),
    }
}

/// The order of keys is transitive.
pub proof fn lemma_key_transitive(a: IdView, b: IdView, c: IdView)
    requires
        key_before(a, b),
        key_before(b, c),
    ensures
        key_before(a, c),
{
    match (a, b, c) {
        (IdView::Player(x), IdView::Player(y), IdView::Player(z)) => {
            lemma_lex_transitive(byte_codes(x), byte_codes(y), byte_codes(z));
        },
        (IdView::Named(x), IdView::Named(y), IdView::Named(z)) => {
            lemma_lex_transitive(char_codes(x), char_codes(y), char_codes(z));
        },
        _ => {},
    }
}

/// Of two different keys, one comes before the other.
pub proof fn lemma_key_total(a: IdView, b: IdView)
    requires
        a != b,
    ensures
        key_before(a, b) || key_before(b, a),
{
    match (a, b) {
        (IdView::Player(x), IdView::Player(y)) => {
            if byte_codes(x) == byte_codes(y) {
                assert(x.len() == byte_codes(x).len() && y.len() == byte_codes(y).len());
                assert forall|i: int| 0 <= i < x.len() implies x[i] == y[i] by {
                    assert(byte_codes(x)[i] == x[i] as int);
                    assert(byte_codes(y)[i] == y[i] as int);
                }
                assert(x =~= y);
            }
            lemma_lex_total(byte_codes(x), byte_codes(y));
        },
        (IdView::Named(x), IdView::Named(y)) => {
            if char_codes(x) == char_codes(y) {
                assert(x.len() == char_codes(x).len() && y.len() == char_codes(y).len());
                assert forall|i: int| 0 <= i < x.len() implies x[i] == y[i] by {
                    assert(char_codes(x)[i] == x[i] as int);
                    assert(char_codes(y)[i] == y[i] as int);
                    assert(x[i] as u32 == y[i] as u32);
                    vstd::utf8::char_u32_cast(x[i], x[i] as u32);
                    vstd::utf8::char_u32_cast(y[i], y[i] as u32);
                }
                assert(x =~= y);
            }
            lemma_lex_total(char_codes(x), char_codes(y));
        },
        _ => {},
    }
}

} // verus!

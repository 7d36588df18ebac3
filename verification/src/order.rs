//! The orders in which listings come: names compare as strings do (by their
//! characters, the same as by their UTF-8 bytes), paths by their length in
//! bytes.

use vstd::prelude::*;
use vstd::string::*;
use vstd::utf8::encode_utf8;

verus! {

/// Whether the text `a` comes before `b`, or equals it, in lexicographic order
/// of characters.
pub open spec fn lex_le(a: Seq<char>, b: Seq<char>) -> bool
    decreases a.len(),
{
    if a.len() == 0 {
        true
    } else if b.len() == 0 {
        false
    } else if (a[0] as u32) < (b[0] as u32) {
        true
    } else if (a[0] as u32) > (b[0] as u32) {
        false
    } else {
        lex_le(a.drop_first(), b.drop_first())
    }
}

/// The length in bytes of the UTF-8 encoding of a text.
pub open spec fn byte_len(s: Seq<char>) -> nat {
    encode_utf8(s).len()
}

/// Of two texts, one comes before or equals the other.
pub proof fn lemma_lex_total(a: Seq<char>, b: Seq<char>)
    ensures
        lex_le(a, b) || lex_le(b, a),
    decreases a.len(),
{
    if a.len() > 0 && b.len() > 0 && (a[0] as u32) == (b[0] as u32) {
        lemma_lex_total(a.drop_first(), b.drop_first());
    }
}

/// The lexicographic order is transitive.
pub proof fn lemma_lex_transitive(a: Seq<char>, b: Seq<char>, c: Seq<char>)
    requires
        lex_le(a, b),
        lex_le(b, c),
    ensures
        lex_le(a, c),
    decreases a.len(),
{
    if a.len() > 0 && b.len() > 0 && c.len() > 0 && (a[0] as u32) == (b[0] as u32) && (b[0] as u32)
        == (c[0] as u32) {
        lemma_lex_transitive(a.drop_first(), b.drop_first(), c.drop_first());
    }
}

/// Encoding a concatenation encodes the parts one after the other.
pub proof fn lemma_encode_concat(a: Seq<char>, b: Seq<char>)
    ensures
        encode_utf8(a + b) == encode_utf8(a) + encode_utf8(b),
    decreases a.len(),
{
    if a.len() == 0 {
        assert(a + b =~= b);
        assert(encode_utf8(a) + encode_utf8(b) =~= encode_utf8(b));
    } else {
        lemma_encode_concat(a.drop_first(), b);
        assert((a + b).drop_first() =~= a.drop_first() + b);
        assert((a + b)[0] == a[0]);
        assert(encode_utf8(a + b) =~= encode_utf8(a) + encode_utf8(b));
    }
}

/// A text takes no more bytes than any text it begins.
pub proof fn lemma_prefix_byte_len(a: Seq<char>, t: Seq<char>)
    requires
        a.len() <= t.len(),
        t.subrange(0, a.len() as int) == a,
    ensures
        byte_len(a) <= byte_len(t),
{
    let rest = t.subrange(a.len() as int, t.len() as int);
    lemma_encode_concat(a, rest);
    assert(a + rest =~= t);
}

/// Characters with the same code are the same character.
pub proof fn lemma_same_code_same_char(x: char, y: char)
    requires
        (x as u32) == (y as u32),
    ensures
        x == y,
{
}

/// Whether `a` comes before `b` in the order strings are compared by: `a`
/// begins `b`, or at the first position where they differ `a` has the
/// smaller character.
pub open spec fn string_order(a: Seq<char>, b: Seq<char>) -> bool {
    (a.len() <= b.len() && b.subrange(0, a.len() as int) == a) || exists|i: int|
        #![trigger a[i], b[i]]
        0 <= i < a.len() && i < b.len() && a.subrange(0, i) == b.subrange(0, i) && (a[i] as u32) < (
        b[i] as u32)
}

/// The name order is the order of strings: a name comes before another when
/// it begins it, or when at the first position where they differ it has the
/// smaller character.
pub proof fn law_name_order_is_string_order(a: Seq<char>, b: Seq<char>)
    ensures
        lex_le(a, b) <==> string_order(a, b),
    decreases a.len(),
{
    if a.len() == 0 {
        assert(b.subrange(0, 0) =~= a);
    } else if b.len() == 0 {
    } else if (a[0] as u32) < (b[0] as u32) {
        assert(a.subrange(0, 0) =~= b.subrange(0, 0));
        assert(a[0] == a[0] && b[0] == b[0]);
    } else if (a[0] as u32) > (b[0] as u32) {
        if a.len() <= b.len() && b.subrange(0, a.len() as int) == a {
            assert(b.subrange(0, a.len() as int)[0] == b[0]);
        }
        if exists|i: int|
            #![trigger a[i], b[i]]
            0 <= i < a.len() && i < b.len() && a.subrange(0, i) == b.subrange(0, i) && (a[i] as u32)
                < (b[i] as u32) {
            let i = choose|i: int|
                #![trigger a[i], b[i]]
                0 <= i < a.len() && i < b.len() && a.subrange(0, i) == b.subrange(0, i) && (a[i] as u32)
                    < (b[i] as u32);
            if i > 0 {
                assert(a.subrange(0, i)[0] == b.subrange(0, i)[0]);
            }
        }
    } else {
        let a1 = a.drop_first();
        let b1 = b.drop_first();
        law_name_order_is_string_order(a1, b1);
        lemma_same_code_same_char(a[0], b[0]);
        // the prefix case carries over
        if a.len() <= b.len() && b.subrange(0, a.len() as int) == a {
            assert(b1.subrange(0, a1.len() as int) =~= a1) by {
                assert forall|j: int| 0 <= j < a1.len() implies b1.subrange(0, a1.len() as int)[j]
                    == a1[j] by {
                    assert(b.subrange(0, a.len() as int)[j + 1] == a[j + 1]);
                }
            }
        }
        if a1.len() <= b1.len() && b1.subrange(0, a1.len() as int) == a1 {
            assert(b.subrange(0, a.len() as int) =~= a) by {
                assert forall|j: int| 0 <= j < a.len() implies b.subrange(0, a.len() as int)[j]
                    == a[j] by {
                    if j > 0 {
                        assert(b1.subrange(0, a1.len() as int)[j - 1] == a1[j - 1]);
                    }
                }
            }
        }
        // the first difference shifts by one
        if exists|i: int|
            #![trigger a[i], b[i]]
            0 <= i < a.len() && i < b.len() && a.subrange(0, i) == b.subrange(0, i) && (a[i] as u32)
                < (b[i] as u32) {
            let i = choose|i: int|
                #![trigger a[i], b[i]]
                0 <= i < a.len() && i < b.len() && a.subrange(0, i) == b.subrange(0, i) && (a[i] as u32)
                    < (b[i] as u32);
            assert(i > 0);
            assert(a1.subrange(0, i - 1) =~= b1.subrange(0, i - 1)) by {
                assert forall|j: int| 0 <= j < i - 1 implies #[trigger] a1.subrange(0, i - 1)[j] == b1.subrange(
                    0,
                    i - 1,
                )[j] by {
                    assert(a.subrange(0, i)[j + 1] == b.subrange(0, i)[j + 1]);
                }
            }
            assert(a1[i - 1] == a[i] && b1[i - 1] == b[i]);
        }
        if exists|i: int|
            #![trigger a1[i], b1[i]]
            0 <= i < a1.len() && i < b1.len() && a1.subrange(0, i) == b1.subrange(0, i) && (a1[i] as u32)
                < (b1[i] as u32) {
            let i = choose|i: int|
                #![trigger a1[i], b1[i]]
                0 <= i < a1.len() && i < b1.len() && a1.subrange(0, i) == b1.subrange(0, i) && (
                a1[i] as u32) < (b1[i] as u32);
            assert(a.subrange(0, i + 1) =~= b.subrange(0, i + 1)) by {
                assert forall|j: int| 0 <= j < i + 1 implies #[trigger] a.subrange(0, i + 1)[j] == b.subrange(
                    0,
                    i + 1,
                )[j] by {
                    if j > 0 {
                        assert(a1.subrange(0, i)[j - 1] == b1.subrange(0, i)[j - 1]);
                    }
                }
            }
            assert(a[i + 1] == a1[i] && b[i + 1] == b1[i]);
        }
    }
}

/// A name comes before every longer name it begins, and never after it.
pub proof fn law_prefix_comes_first(a: Seq<char>, b: Seq<char>)
    ensures
        lex_le(a, a + b),
        b.len() > 0 ==> !lex_le(a + b, a),
{
    law_name_order_is_string_order(a, a + b);
    assert((a + b).subrange(0, a.len() as int) =~= a);
    law_name_order_is_string_order(a + b, a);
    if b.len() > 0 && string_order(a + b, a) {
        if exists|i: int|
            #![trigger (a + b)[i], a[i]]
            0 <= i < (a + b).len() && i < a.len() && (a + b).subrange(0, i) == a.subrange(0, i) && ((
            a + b)[i] as u32) < (a[i] as u32) {
            let i = choose|i: int|
                #![trigger (a + b)[i], a[i]]
                0 <= i < (a + b).len() && i < a.len() && (a + b).subrange(0, i) == a.subrange(0, i)
                    && ((a + b)[i] as u32) < (a[i] as u32);
            assert((a + b)[i] == a[i]);
        }
    }
}

/// Whether the text `a` comes before `b`, or equals it, as strings compare.
pub fn text_le(a: &str, b: &str) -> (r: bool)
    ensures
        r == lex_le(a@, b@),
        r == string_order(a@, b@),
{
    proof {
        law_name_order_is_string_order(a@, b@);
    }
    let n = a.unicode_len();
    let m = b.unicode_len();
    let mut i: usize = 0;
    assert(a@.skip(0) =~= a@);
    assert(b@.skip(0) =~= b@);
    while i < n && i < m
        invariant
            n == a@.len(),
            m == b@.len(),
            i <= n,
            i <= m,
            lex_le(a@, b@) == lex_le(a@.skip(i as int), b@.skip(i as int)),
            lex_le(a@, b@) == string_order(a@, b@),
        decreases n - i,
    {
        let x = a.get_char(i) as u32;
        let y = b.get_char(i) as u32;
        assert(a@.skip(i as int)[0] == a@[i as int]);
        assert(b@.skip(i as int)[0] == b@[i as int]);
        if x < y {
            return true;
        }
        if x > y {
            return false;
        }
        assert(a@.skip(i as int).drop_first() =~= a@.skip(i + 1));
        assert(b@.skip(i as int).drop_first() =~= b@.skip(i + 1));
        i = i + 1;
    }
    i == n
}

} // verus!

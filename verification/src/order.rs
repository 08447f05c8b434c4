use vstd::prelude::*;
use vstd::utf8::encode_utf8;

verus! {

/// Lexicographic "strictly before" on byte strings, as `Ord` for `[u8]` and `str` orders them.
pub open spec fn lex_lt(a: Seq<u8>, b: Seq<u8>) -> bool
    decreases a.len(),
{
    if a.len() == 0 {
        b.len() > 0
    } else if b.len() == 0 {
        false
    } else if a[0] < b[0] {
        true
    } else if a[0] > b[0] {
        false
    } else {
        lex_lt(a.drop_first(), b.drop_first())
    }
}

/// The bytes by which a text is ordered: its UTF-8 encoding.
pub open spec fn text_key(s: Seq<char>) -> Seq<u8> {
    encode_utf8(s)
}

/// Texts with the same key are the same text.
pub proof fn lemma_text_key_injective(a: Seq<char>, b: Seq<char>)
    requires
        text_key(a) == text_key(b),
    ensures
        a == b,
{
    vstd::utf8::encode_utf8_decode_utf8(a);
    vstd::utf8::encode_utf8_decode_utf8(b);
}

/// Nothing is strictly before itself.
pub proof fn lemma_lex_irreflexive(a: Seq<u8>)
    ensures
        !lex_lt(a, a),
    decreases a.len(),
{
    if a.len() > 0 {
        lemma_lex_irreflexive(a.drop_first());
    }
}

/// Two byte strings are never each before the other.
pub proof fn lemma_lex_asymmetric(a: Seq<u8>, b: Seq<u8>)
    ensures
        !(lex_lt(a, b) && lex_lt(b, a)),
    decreases a.len(),
{
    if a.len() > 0 && b.len() > 0 && a[0] == b[0] {
        lemma_lex_asymmetric(a.drop_first(), b.drop_first());
    }
}

/// "Strictly before" is transitive.
pub proof fn lemma_lex_transitive(a: Seq<u8>, b: Seq<u8>, c: Seq<u8>)
    requires
        lex_lt(a, b),
        lex_lt(b, c),
    ensures
        lex_lt(a, c),
    decreases a.len(),
{
    if a.len() > 0 && b.len() > 0 && c.len() > 0 && a[0] == b[0] && b[0] == c[0] {
        lemma_lex_transitive(a.drop_first(), b.drop_first(), c.drop_first());
    }
}

/// Any two byte strings are equal or one is strictly before the other.
pub proof fn lemma_lex_total(a: Seq<u8>, b: Seq<u8>)
    ensures
        lex_lt(a, b) || a == b || lex_lt(b, a),
    decreases a.len(),
{
    if a.len() > 0 && b.len() > 0 && a[0] == b[0] {
        lemma_lex_total(a.drop_first(), b.drop_first());
        if a.drop_first() == b.drop_first() {
            assert(a =~= seq![a[0]] + a.drop_first());
            assert(b =~= seq![b[0]] + b.drop_first());
        }
    } else if a.len() == 0 && b.len() == 0 {
        assert(a =~= b);
    }
}

/// The outcome of comparing two keys.
#[derive(Debug, Clone, Copy, PartialEq, Eq, Structural)]
pub enum Cmp {
    Less,
    Equal,
    Greater,
}

/// Compares two byte strings lexicographically.
pub fn compare_bytes(a: &[u8], b: &[u8]) -> (c: Cmp)
    ensures
        (c == Cmp::Less) == lex_lt(a@, b@),
        (c == Cmp::Equal) == (a@ == b@),
        (c == Cmp::Greater) == lex_lt(b@, a@),
{
    proof {
        lemma_lex_asymmetric(a@, b@);
        lemma_lex_irreflexive(a@);
        lemma_lex_total(a@, b@);
        assert(a@.skip(0) == a@);
        assert(b@.skip(0) == b@);
    }
    let mut i: usize = 0;
    while i < a.len() && i < b.len()
        invariant
            i <= a@.len(),
            i <= b@.len(),
            lex_lt(a@, b@) == lex_lt(a@.skip(i as int), b@.skip(i as int)),
            lex_lt(b@, a@) == lex_lt(b@.skip(i as int), a@.skip(i as int)),
            (a@ == b@) == (a@.skip(i as int) == b@.skip(i as int)),
        decreases a@.len() - i,
    {
        let x = a[i];
        let y = b[i];
        if x < y {
            return Cmp::Less;
        }
        if x > y {
            return Cmp::Greater;
        }
        proof {
            let sa = a@.skip(i as int);
            let sb = b@.skip(i as int);
            assert(sa.drop_first() =~= a@.skip(i + 1));
            assert(sb.drop_first() =~= b@.skip(i + 1));
            assert(sa[0] == x);
            assert(sb[0] == y);
            if sa.drop_first() == sb.drop_first() {
                assert forall|k: int| 0 <= k < sa.len() implies sa[k] == sb[k] by {
                    if k > 0 {
                        assert(sa[k] == sa.drop_first()[k - 1]);
                        assert(sb[k] == sb.drop_first()[k - 1]);
                    }
                }
                assert(sa =~= sb);
            }
        }
        i = i + 1;
    }
    if i < b.len() {
        Cmp::Less
    } else if i < a.len() {
        Cmp::Greater
    } else {
        proof {
            assert(a@.skip(i as int) =~= b@.skip(i as int));
        }
        Cmp::Equal
    }
}

/// Compares two texts as `Ord` for `String` does: by their UTF-8 bytes.
pub fn compare_text(a: &String, b: &String) -> (c: Cmp)
    ensures
        (c == Cmp::Less) == lex_lt(text_key(a@), text_key(b@)),
        (c == Cmp::Equal) == (text_key(a@) == text_key(b@)),
        (c == Cmp::Greater) == lex_lt(text_key(b@), text_key(a@)),
{
    compare_bytes(a.as_str().as_bytes(), b.as_str().as_bytes())
}

} // verus!

//! What JSON text keeps of what it stands for.
use crate::json::{all_escaped, escaped, hex_digit, json_quoted};
use vstd::prelude::*;

verus! {

proof fn lemma_first_escaped(s: Seq<char>)
    requires
        s.len() > 0,
    ensures
        all_escaped(s) == escaped(s[0]) + all_escaped(s.skip(1)),
    decreases s.len(),
{
    if s.len() == 1 {
        assert(s.drop_last() =~= Seq::empty());
        assert(s.skip(1) =~= Seq::empty());
        assert(all_escaped(s) =~= escaped(s[0]) + all_escaped(s.skip(1)));
    } else {
        let front = s.drop_last();
        lemma_first_escaped(front);
        assert(front.skip(1) =~= s.skip(1).drop_last());
        assert(s.skip(1).last() == s.last());
        assert(all_escaped(s) =~= escaped(s[0]) + all_escaped(s.skip(1)));
    }
}

/// Two characters that are written with the same beginning are the same.
proof fn lemma_escapes_differ(a: char, b: char, rest_a: Seq<char>, rest_b: Seq<char>)
    requires
        escaped(a) + rest_a == escaped(b) + rest_b,
    ensures
        a == b,
        rest_a == rest_b,
{
    let whole = escaped(a) + rest_a;
    let other = escaped(b) + rest_b;
    assert(whole[0] == escaped(a)[0]);
    assert(other[0] == escaped(b)[0]);
    if escaped(a).len() > 1 {
        assert(whole[1] == escaped(a)[1]);
    }
    if escaped(b).len() > 1 {
        assert(other[1] == escaped(b)[1]);
    }
    if escaped(a).len() == 6 && escaped(b).len() == 6 {
        assert(whole[4] == escaped(a)[4] && whole[5] == escaped(a)[5]);
        assert(other[4] == escaped(b)[4] && other[5] == escaped(b)[5]);
        lemma_hex(a as int / 16, b as int / 16);
        lemma_hex(a as int % 16, b as int % 16);
    }
    assert(a == b);
    assert(whole.skip(escaped(a).len() as int) =~= rest_a);
    assert(other.skip(escaped(b).len() as int) =~= rest_b);
}

proof fn lemma_hex(m: int, n: int)
    requires
        0 <= m < 16,
        0 <= n < 16,
        hex_digit(m) == hex_digit(n),
    ensures
        m == n,
{
}

proof fn lemma_escaped_texts_differ(a: Seq<char>, b: Seq<char>)
    requires
        all_escaped(a) == all_escaped(b),
    ensures
        a == b,
    decreases a.len(),
{
    if a.len() > 0 {
        lemma_first_escaped(a);
    }
    if b.len() > 0 {
        lemma_first_escaped(b);
    }
    if a.len() > 0 && b.len() > 0 {
        lemma_escapes_differ(a[0], b[0], all_escaped(a.skip(1)), all_escaped(b.skip(1)));
        lemma_escaped_texts_differ(a.skip(1), b.skip(1));
        assert(a =~= seq![a[0]] + a.skip(1));
        assert(b =~= seq![b[0]] + b.skip(1));
    } else if a.len() > 0 {
        assert(all_escaped(a).len() > 0);
    } else if b.len() > 0 {
        assert(all_escaped(b).len() > 0);
    } else {
        assert(a =~= b);
    }
}

/// A text can be told from its JSON string: two texts that are written alike are the same,
/// character for character.
pub proof fn law_quoting_loses_nothing(a: Seq<char>, b: Seq<char>)
    requires
        json_quoted(a) == json_quoted(b),
    ensures
        a == b,
{
    let p = json_quoted(a);
    let q = json_quoted(b);
    assert(p.subrange(1, p.len() - 1) =~= all_escaped(a));
    assert(q.subrange(1, q.len() - 1) =~= all_escaped(b));
    lemma_escaped_texts_differ(a, b);
}

} // verus!

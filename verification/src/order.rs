use vstd::prelude::*;
use vstd::string::StrSliceExecFns;

use crate::format::dec_chars;
use crate::format::digit_char;
use crate::format::padded_dec;
use crate::format::zeros;

verus! {

/// Lexicographic order on character sequences, by code point, with a proper
/// prefix sorting before what extends it. This is the order in which archive
/// file stems are compared when the oldest one is pruned.
pub open spec fn lex_le(a: Seq<char>, b: Seq<char>) -> bool
    decreases a.len(),
{
    if a.len() == 0 {
        true
    } else if b.len() == 0 {
        false
    } else if a[0] == b[0] {
        lex_le(a.drop_first(), b.drop_first())
    } else {
        (a[0] as u32) < (b[0] as u32)
    }
}

/// Any two sequences are ordered one way or the other.
pub proof fn lemma_lex_le_total(a: Seq<char>, b: Seq<char>)
    ensures
        lex_le(a, b) || lex_le(b, a),
    decreases a.len(),
{
    if a.len() == 0 {
    } else if b.len() == 0 {
    } else if a[0] == b[0] {
        lemma_lex_le_total(a.drop_first(), b.drop_first());
    } else {
        vstd::utf8::char_u32_cast(a[0], a[0] as u32);
        vstd::utf8::char_u32_cast(b[0], b[0] as u32);
        assert(a[0] as u32 != b[0] as u32);
    }
}

/// The order is transitive.
pub proof fn lemma_lex_le_trans(a: Seq<char>, b: Seq<char>, c: Seq<char>)
    requires
        lex_le(a, b),
        lex_le(b, c),
    ensures
        lex_le(a, c),
    decreases a.len(),
{
    if a.len() == 0 {
    } else {
        if a[0] == b[0] && b[0] == c[0] {
            lemma_lex_le_trans(a.drop_first(), b.drop_first(), c.drop_first());
        }
    }
}

/// The order is antisymmetric: sequences below each other are equal.
pub proof fn lemma_lex_le_antisym(a: Seq<char>, b: Seq<char>)
    requires
        lex_le(a, b),
        lex_le(b, a),
    ensures
        a == b,
    decreases a.len(),
{
    if a.len() == 0 {
        assert(b.len() == 0);
        assert(a =~= b);
    } else {
        assert(a[0] == b[0]);
        lemma_lex_le_antisym(a.drop_first(), b.drop_first());
        assert(a.drop_first().len() == b.drop_first().len());
        assert(a.len() == b.len());
        assert forall|i: int| 0 <= i < a.len() implies a[i] == b[i] by {
            if i > 0 {
                assert(a[i] == a.drop_first()[i - 1]);
                assert(b[i] == b.drop_first()[i - 1]);
            }
        }
        assert(a =~= b);
    }
}

/// Compares two strings in the lexicographic code-point order.
pub fn lex_le_str(a: &str, b: &str) -> (r: bool)
    ensures
        r == lex_le(a@, b@),
{
    let alen = a.unicode_len();
    let blen = b.unicode_len();
    let mut i: usize = 0;
    proof {
        assert(a@.skip(0) =~= a@);
        assert(b@.skip(0) =~= b@);
    }
    loop
        invariant
            i <= alen,
            i <= blen,
            alen == a@.len(),
            blen == b@.len(),
            lex_le(a@, b@) == lex_le(a@.skip(i as int), b@.skip(i as int)),
            lex_le(b@, a@) == lex_le(b@.skip(i as int), a@.skip(i as int)),
        decreases alen - i,
    {
        if i >= alen {
            proof {
                assert(a@.skip(i as int).len() == 0);
            }
            return true;
        }
        if i >= blen {
            proof {
                assert(b@.skip(i as int).len() == 0);
                assert(a@.skip(i as int).len() > 0);
            }
            return false;
        }
        let ca = a.get_char(i);
        let cb = b.get_char(i);
        if ca != cb {
            proof {
                assert(a@.skip(i as int)[0] == ca);
                assert(b@.skip(i as int)[0] == cb);
            }
            return (ca as u32) < (cb as u32);
        }
        proof {
            assert(a@.skip(i as int).drop_first() =~= a@.skip(i as int + 1));
            assert(b@.skip(i as int).drop_first() =~= b@.skip(i as int + 1));
            assert(a@.skip(i as int)[0] == b@.skip(i as int)[0]);
        }
        i = i + 1;
    }
}

proof fn lemma_digit_char_order(d: nat, e: nat)
    requires
        d < 10,
        e < 10,
    ensures
        ((digit_char(d) as u32) <= (digit_char(e) as u32)) <==> d <= e,
        (digit_char(d) == digit_char(e)) <==> d == e,
{
}

proof fn lemma_heads_drops_eq(a: Seq<char>, b: Seq<char>)
    requires
        a.len() > 0,
        b.len() > 0,
        a[0] == b[0],
        a.drop_first() == b.drop_first(),
    ensures
        a == b,
{
    assert(a.drop_first().len() == a.len() - 1);
    assert(b.drop_first().len() == b.len() - 1);
    assert(a.len() == b.len());
    assert forall|i: int| 0 <= i < a.len() implies a[i] == b[i] by {
        if i > 0 {
            assert(a[i] == a.drop_first()[i - 1]);
            assert(b[i] == b.drop_first()[i - 1]);
        }
    }
    assert(a =~= b);
}

proof fn lemma_lex_le_push(u: Seq<char>, v: Seq<char>, x: char, y: char)
    requires
        u.len() == v.len(),
    ensures
        lex_le(u.push(x), v.push(y)) == (if u == v {
            (x as u32) <= (y as u32)
        } else {
            lex_le(u, v)
        }),
    decreases u.len(),
{
    if u.len() == 0 {
        assert(u =~= v);
        assert(u.push(x)[0] == x);
        assert(v.push(y)[0] == y);
        if x == y {
            assert(u.push(x).drop_first() =~= Seq::<char>::empty());
            assert(v.push(y).drop_first() =~= Seq::<char>::empty());
            assert(lex_le(Seq::<char>::empty(), Seq::<char>::empty()));
        } else {
            vstd::utf8::char_u32_cast(x, x as u32);
            vstd::utf8::char_u32_cast(y, y as u32);
            assert(x as u32 != y as u32);
        }
    } else {
        assert(u.push(x)[0] == u[0]);
        assert(v.push(y)[0] == v[0]);
        if u[0] == v[0] {
            assert(u.push(x).drop_first() =~= u.drop_first().push(x));
            assert(v.push(y).drop_first() =~= v.drop_first().push(y));
            lemma_lex_le_push(u.drop_first(), v.drop_first(), x, y);
            if u.drop_first() == v.drop_first() {
                lemma_heads_drops_eq(u, v);
            } else {
                assert(u != v);
            }
        } else {
            assert(u != v);
        }
    }
}

proof fn lemma_dec_len_pos(n: nat)
    ensures
        dec_chars(n).len() >= 1,
    decreases n,
{
    if n >= 10 {
        lemma_dec_len_pos(n / 10);
    }
}

proof fn lemma_dec_inj(a: nat, b: nat)
    requires
        dec_chars(a) == dec_chars(b),
    ensures
        a == b,
    decreases a,
{
    lemma_dec_len_pos(a);
    lemma_dec_len_pos(b);
    if a < 10 && b < 10 {
        assert(dec_chars(a)[0] == digit_char(a));
        assert(dec_chars(b)[0] == digit_char(b));
        lemma_digit_char_order(a, b);
    } else if a < 10 {
        lemma_dec_len_pos(b / 10);
        assert(dec_chars(a).len() == 1);
        assert(dec_chars(b).len() == dec_chars(b / 10).len() + 1);
    } else if b < 10 {
        lemma_dec_len_pos(a / 10);
        assert(dec_chars(b).len() == 1);
        assert(dec_chars(a).len() == dec_chars(a / 10).len() + 1);
    } else {
        assert(dec_chars(a).last() == digit_char(a % 10));
        assert(dec_chars(b).last() == digit_char(b % 10));
        lemma_digit_char_order(a % 10, b % 10);
        assert(dec_chars(a).drop_last() =~= dec_chars(a / 10));
        assert(dec_chars(b).drop_last() =~= dec_chars(b / 10));
        lemma_dec_inj(a / 10, b / 10);
    }
}

/// Law: among archive names whose decimal timestamps have the same digit
/// width, the lexicographic order of the text and the numeric order of the
/// encoded timestamps coincide, so the lexicographically smallest name is
/// always the numerically oldest.
pub proof fn lemma_dec_lex_le(a: nat, b: nat)
    requires
        dec_chars(a).len() == dec_chars(b).len(),
    ensures
        lex_le(dec_chars(a), dec_chars(b)) <==> a <= b,
    decreases a,
{
    lemma_dec_len_pos(a);
    lemma_dec_len_pos(b);
    if a < 10 && b < 10 {
        lemma_digit_char_order(a, b);
        assert(dec_chars(a) =~= seq![digit_char(a)]);
        assert(dec_chars(b) =~= seq![digit_char(b)]);
        if digit_char(a) == digit_char(b) {
            assert(dec_chars(a).drop_first() =~= Seq::<char>::empty());
            assert(dec_chars(b).drop_first() =~= Seq::<char>::empty());
            assert(lex_le(Seq::<char>::empty(), Seq::<char>::empty()));
        }
    } else if a < 10 {
        lemma_dec_len_pos(b / 10);
        assert(dec_chars(a).len() == 1);
        assert(dec_chars(b).len() == dec_chars(b / 10).len() + 1);
    } else if b < 10 {
        lemma_dec_len_pos(a / 10);
        assert(dec_chars(b).len() == 1);
        assert(dec_chars(a).len() == dec_chars(a / 10).len() + 1);
    } else {
        let qa = a / 10;
        let qb = b / 10;
        let ra = a % 10;
        let rb = b % 10;
        assert(dec_chars(a) == dec_chars(qa).push(digit_char(ra)));
        assert(dec_chars(b) == dec_chars(qb).push(digit_char(rb)));
        assert(dec_chars(qa).len() == dec_chars(qb).len());
        lemma_lex_le_push(dec_chars(qa), dec_chars(qb), digit_char(ra), digit_char(rb));
        if dec_chars(qa) == dec_chars(qb) {
            lemma_dec_inj(qa, qb);
            lemma_digit_char_order(ra, rb);
            assert(a == 10 * qa + ra);
            assert(b == 10 * qb + rb);
        } else {
            lemma_dec_lex_le(qa, qb);
            assert(qa != qb);
            assert(a == 10 * qa + ra);
            assert(b == 10 * qb + rb);
            if qa < qb {
                assert(a < b);
            } else {
                assert(b < a);
            }
        }
    }
}

proof fn lemma_lex_le_prefix(p: Seq<char>, u: Seq<char>, v: Seq<char>)
    ensures
        lex_le(p + u, p + v) == lex_le(u, v),
    decreases p.len(),
{
    if p.len() == 0 {
        assert(p + u =~= u);
        assert(p + v =~= v);
    } else {
        assert((p + u)[0] == p[0]);
        assert((p + v)[0] == p[0]);
        assert((p + u).drop_first() =~= p.drop_first() + u);
        assert((p + v).drop_first() =~= p.drop_first() + v);
        lemma_lex_le_prefix(p.drop_first(), u, v);
    }
}

proof fn lemma_dec_len_le(a: nat, b: nat)
    requires
        a <= b,
    ensures
        dec_chars(a).len() <= dec_chars(b).len(),
    decreases b,
{
    if b < 10 {
    } else if a < 10 {
        lemma_dec_len_pos(b / 10);
    } else {
        lemma_dec_len_le(a / 10, b / 10);
    }
}

proof fn lemma_dec_leading_digit(n: nat)
    requires
        n >= 10,
    ensures
        ('0' as u32) < (dec_chars(n)[0] as u32),
    decreases n,
{
    lemma_dec_len_pos(n / 10);
    assert(dec_chars(n)[0] == dec_chars(n / 10)[0]);
    if n / 10 < 10 {
        assert(dec_chars(n / 10) == seq![digit_char(n / 10)]);
        assert(n / 10 >= 1);
    } else {
        lemma_dec_leading_digit(n / 10);
    }
}

proof fn lemma_lex_first_diff(u: Seq<char>, v: Seq<char>, d: int)
    requires
        0 <= d < u.len(),
        d < v.len(),
        forall|i: int| 0 <= i < d ==> u[i] == v[i],
        u[d] != v[d],
        (u[d] as u32) < (v[d] as u32),
    ensures
        lex_le(u, v),
        !lex_le(v, u),
    decreases d,
{
    if d == 0 {
    } else {
        assert(u[0] == v[0]);
        assert forall|i: int| 0 <= i < d - 1 implies u.drop_first()[i] == v.drop_first()[i] by {
            assert(u[i + 1] == v[i + 1]);
        }
        assert(u.drop_first()[d - 1] == u[d]);
        assert(v.drop_first()[d - 1] == v[d]);
        lemma_lex_first_diff(u.drop_first(), v.drop_first(), d - 1);
    }
}

proof fn lemma_padded_shorter_sorts_first(a: nat, b: nat, w: nat)
    requires
        padded_dec(a, w).len() == padded_dec(b, w).len(),
        dec_chars(a).len() < dec_chars(b).len(),
    ensures
        lex_le(padded_dec(a, w), padded_dec(b, w)),
        !lex_le(padded_dec(b, w), padded_dec(a, w)),
        a < b,
{
    let da = dec_chars(a);
    let db = dec_chars(b);
    let pa = padded_dec(a, w);
    let pb = padded_dec(b, w);
    if b <= a {
        lemma_dec_len_le(b, a);
        assert(false);
    }
    lemma_dec_len_pos(a);
    assert(da.len() < w);
    let ka = w - da.len();
    let kb = pb.len() - db.len();
    assert(pa =~= zeros(ka as nat) + da);
    assert(pb =~= zeros(kb as nat) + db);
    assert(kb < ka);
    assert forall|i: int| 0 <= i < kb implies pa[i] == pb[i] by {
        assert(pa[i] == zeros(ka as nat)[i]);
        assert(pb[i] == zeros(kb as nat)[i]);
    }
    assert(pa[kb] == zeros(ka as nat)[kb]);
    assert(pa[kb] == '0');
    assert(pb[kb] == db[0]);
    if db.len() <= 1 {
        lemma_dec_len_pos(b);
        assert(false);
    }
    assert(b >= 10);
    lemma_dec_leading_digit(b);
    vstd::utf8::char_u32_cast(pa[kb], pa[kb] as u32);
    vstd::utf8::char_u32_cast(pb[kb], pb[kb] as u32);
    assert(pa[kb] != pb[kb]);
    lemma_lex_first_diff(pa, pb, kb);
}

/// Law: zero-padded to a common width, archive names sort as text exactly as
/// the timestamps they encode sort as numbers.
pub proof fn lemma_padded_lex_le(a: nat, b: nat, w: nat)
    requires
        padded_dec(a, w).len() == padded_dec(b, w).len(),
    ensures
        lex_le(padded_dec(a, w), padded_dec(b, w)) <==> a <= b,
{
    let da = dec_chars(a);
    let db = dec_chars(b);
    if da.len() == db.len() {
        lemma_dec_lex_le(a, b);
        if da.len() < w {
            lemma_lex_le_prefix(zeros((w - da.len()) as nat), da, db);
            assert(padded_dec(a, w) == zeros((w - da.len()) as nat) + da);
            assert(padded_dec(b, w) == zeros((w - db.len()) as nat) + db);
        }
    } else if da.len() < db.len() {
        lemma_padded_shorter_sorts_first(a, b, w);
    } else {
        lemma_padded_shorter_sorts_first(b, a, w);
    }
}

/// Law: among stems that encode timestamps of one common digit width, the
/// stem the pruning step picks — the lexicographically smallest — names the
/// numerically oldest archive.
pub proof fn lemma_prune_picks_oldest(stems: Seq<Seq<char>>, times: Seq<nat>, i: int)
    requires
        stems.len() == times.len(),
        forall|j: int| 0 <= j < stems.len() ==> stems[j] == dec_chars(times[j]),
        forall|j: int|
            0 <= j < times.len() ==> (#[trigger] dec_chars(times[j])).len() == dec_chars(
                times[0],
            ).len(),
        0 <= i < stems.len(),
        forall|j: int| 0 <= j < stems.len() ==> lex_le(stems[i], #[trigger] stems[j]),
    ensures
        forall|j: int| 0 <= j < times.len() ==> times[i] <= #[trigger] times[j],
{
    assert forall|j: int| 0 <= j < times.len() implies times[i] <= #[trigger] times[j] by {
        assert(stems[i] == dec_chars(times[i]));
        assert(stems[j] == dec_chars(times[j]));
        assert(dec_chars(times[i]).len() == dec_chars(times[0]).len());
        assert(dec_chars(times[j]).len() == dec_chars(times[0]).len());
        assert(lex_le(stems[i], stems[j]));
        lemma_dec_lex_le(times[i], times[j]);
    }
}

} // verus!

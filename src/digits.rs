//! Facts about numbers written as sequences of base-ten digits, and an
//! exact comparison of two such numbers, each scaled by a power of ten.

use vstd::prelude::*;
use core::cmp::Ordering;
use crate::value::{digits_value, int_order, pow10};

verus! {

/// Every digit of `s` is below ten.
pub open spec fn all_digits(s: Seq<u8>) -> bool {
    forall|i: int| 0 <= i < s.len() ==> #[trigger] s[i] < 10
}

/// `s` followed by `p` zeros.
pub open spec fn padded(s: Seq<u8>, p: nat) -> Seq<u8> {
    s + Seq::new(p, |i: int| 0u8)
}

pub proof fn lemma_pow10_positive(e: nat)
    ensures
        pow10(e) > 0,
    decreases e,
{
    if e > 0 {
        lemma_pow10_positive((e - 1) as nat);
    }
}

pub proof fn lemma_pow10_add(x: nat, y: nat)
    ensures
        pow10(x + y) == pow10(x) * pow10(y),
    decreases y,
{
    if y == 0 {
        assert(pow10(0) == 1);
        assert(x + y == x);
    } else {
        lemma_pow10_add(x, (y - 1) as nat);
        assert((x + y - 1) as nat == x + (y - 1) as nat);
        assert(pow10(x + y) == 10 * pow10((x + y - 1) as nat));
        assert(pow10(x) * pow10(y) == pow10(x) * (10 * pow10((y - 1) as nat)));
        assert(pow10(x) * (10 * pow10((y - 1) as nat)) == 10 * (pow10(x) * pow10(
            (y - 1) as nat,
        ))) by (nonlinear_arith);
    }
}

pub proof fn lemma_pow10_monotone(x: nat, y: nat)
    requires
        x <= y,
    ensures
        pow10(x) <= pow10(y),
{
    lemma_pow10_add(x, (y - x) as nat);
    lemma_pow10_positive((y - x) as nat);
    lemma_pow10_positive(x);
    assert(pow10(x) * pow10((y - x) as nat) >= pow10(x)) by (nonlinear_arith)
        requires
            pow10((y - x) as nat) >= 1,
            pow10(x) > 0,
    ;
}

/// The value of `x` followed by `y`.
pub proof fn lemma_concat(x: Seq<u8>, y: Seq<u8>)
    ensures
        digits_value(x + y) == digits_value(x) * pow10(y.len()) + digits_value(y),
    decreases y.len(),
{
    if y.len() == 0 {
        assert(x + y =~= x);
        assert(pow10(0) == 1);
        assert(digits_value(y) == 0);
        assert(digits_value(x) * 1 == digits_value(x));
    } else {
        let y0 = y.drop_last();
        lemma_concat(x, y0);
        assert((x + y).drop_last() =~= x + y0);
        assert((x + y).last() == y.last());
        let vx = digits_value(x);
        let p = pow10(y0.len());
        assert(pow10(y.len()) == 10 * p);
        assert((vx * p + digits_value(y0)) * 10 + y.last() as nat == vx * (10 * p) + (
        digits_value(y0) * 10 + y.last() as nat)) by (nonlinear_arith);
        assert(digits_value(x + y) == digits_value(x + y0) * 10 + y.last() as nat);
        assert(digits_value(y) == digits_value(y0) * 10 + y.last() as nat);
    }
}

/// A sequence of zeros is worth zero.
pub proof fn lemma_zeros(s: Seq<u8>)
    requires
        forall|i: int| 0 <= i < s.len() ==> #[trigger] s[i] == 0,
    ensures
        digits_value(s) == 0,
    decreases s.len(),
{
    if s.len() > 0 {
        lemma_zeros(s.drop_last());
    }
}

pub proof fn lemma_padded(s: Seq<u8>, p: nat)
    ensures
        digits_value(padded(s, p)) == digits_value(s) * pow10(p),
        padded(s, p).len() == s.len() + p,
{
    let z = Seq::new(p, |i: int| 0u8);
    lemma_concat(s, z);
    lemma_zeros(z);
}

/// `n` digits are worth less than `10^n`.
pub proof fn lemma_upper(s: Seq<u8>)
    requires
        all_digits(s),
    ensures
        digits_value(s) < pow10(s.len()),
    decreases s.len(),
{
    if s.len() > 0 {
        let t = s.drop_last();
        assert(all_digits(t)) by {
            assert forall|i: int| 0 <= i < t.len() implies #[trigger] t[i] < 10 by {
                assert(t[i] == s[i]);
            }
        }
        lemma_upper(t);
        assert(s.last() < 10) by {
            assert(s[s.len() - 1] < 10);
        }
        assert(digits_value(t) * 10 + (s.last() as nat) < pow10(t.len()) * 10) by (nonlinear_arith)
            requires
                digits_value(t) < pow10(t.len()),
                (s.last() as nat) < 10,
        ;
    }
}

/// Digits led by a non-zero one are worth at least `10^(n - 1)`.
pub proof fn lemma_lower(s: Seq<u8>)
    requires
        s.len() > 0,
        s[0] != 0,
    ensures
        digits_value(s) >= pow10((s.len() - 1) as nat),
{
    let head = s.subrange(0, 1);
    let rest = s.subrange(1, s.len() as int);
    assert(s =~= head + rest);
    lemma_concat(head, rest);
    assert(head.drop_last() =~= Seq::<u8>::empty());
    assert(head.last() == s[0]);
    assert(digits_value(head) == digits_value(Seq::<u8>::empty()) * 10 + s[0] as nat);
    lemma_pow10_positive(rest.len());
    assert(digits_value(head) * pow10(rest.len()) >= pow10(rest.len())) by (nonlinear_arith)
        requires
            digits_value(head) >= 1,
            pow10(rest.len()) > 0,
    ;
}

/// Of two digit sequences of one length that first differ at `k`, the one
/// with the smaller digit there is worth less.
pub proof fn lemma_lex(s: Seq<u8>, t: Seq<u8>, k: int)
    requires
        s.len() == t.len(),
        all_digits(s),
        all_digits(t),
        0 <= k < s.len(),
        forall|j: int| 0 <= j < k ==> #[trigger] s[j] == t[j],
        s[k] < t[k],
    ensures
        digits_value(s) < digits_value(t),
{
    let hs = s.subrange(0, k + 1);
    let ht = t.subrange(0, k + 1);
    let rs = s.subrange(k + 1, s.len() as int);
    let rt = t.subrange(k + 1, t.len() as int);
    let prefix = s.subrange(0, k);
    assert(s =~= hs + rs);
    assert(t =~= ht + rt);
    lemma_concat(hs, rs);
    lemma_concat(ht, rt);
    assert(hs.drop_last() =~= prefix);
    assert(ht.drop_last() =~= prefix);
    assert(all_digits(rs)) by {
        assert forall|i: int| 0 <= i < rs.len() implies #[trigger] rs[i] < 10 by {
            assert(rs[i] == s[k + 1 + i]);
        }
    }
    lemma_upper(rs);
    lemma_pow10_positive(rs.len());
    let vp = digits_value(prefix);
    let p = pow10(rs.len());
    let a = vp * 10 + s[k] as nat;
    let b = vp * 10 + t[k] as nat;
    assert(digits_value(hs) == a);
    assert(digits_value(ht) == b);
    assert(a * p + digits_value(rs) < b * p + digits_value(rt)) by (nonlinear_arith)
        requires
            a + 1 <= b,
            digits_value(rs) < p,
            p > 0,
    ;
}

/// `s` with its leading zeros dropped is worth as much as `s`.
pub proof fn lemma_leading_zeros(s: Seq<u8>, i: int)
    requires
        0 <= i <= s.len(),
        forall|j: int| 0 <= j < i ==> #[trigger] s[j] == 0,
    ensures
        digits_value(s) == digits_value(s.subrange(i, s.len() as int)),
{
    let z = s.subrange(0, i);
    let r = s.subrange(i, s.len() as int);
    assert(s =~= z + r);
    lemma_concat(z, r);
    assert forall|j: int| 0 <= j < z.len() implies #[trigger] z[j] == 0 by {
        assert(z[j] == s[j]);
    }
    lemma_zeros(z);
}

pub proof fn lemma_padded_digits(s: Seq<u8>, p: nat)
    requires
        all_digits(s),
    ensures
        all_digits(padded(s, p)),
{
    assert forall|i: int| 0 <= i < padded(s, p).len() implies #[trigger] padded(s, p)[i] < 10 by {
        if i < s.len() {
            assert(padded(s, p)[i] == s[i]);
        }
    }
}

/// A number with fewer places is the smaller, where the longer one is led by
/// a non-zero digit.
pub proof fn lemma_fewer_places(sa: Seq<u8>, pa: nat, sb: Seq<u8>, pb: nat)
    requires
        all_digits(sa),
        sb.len() > 0,
        sb[0] != 0,
        sa.len() + pa < sb.len() + pb,
    ensures
        digits_value(sa) * pow10(pa) < digits_value(sb) * pow10(pb),
{
    lemma_upper(sa);
    lemma_lower(sb);
    lemma_pow10_positive(pa);
    lemma_pow10_add(sa.len(), pa);
    let lb1 = (sb.len() - 1) as nat;
    lemma_pow10_add(lb1, pb);
    lemma_pow10_monotone(sa.len() + pa, lb1 + pb);
    assert(digits_value(sa) * pow10(pa) < pow10(sa.len()) * pow10(pa)) by (nonlinear_arith)
        requires
            digits_value(sa) < pow10(sa.len()),
            pow10(pa) > 0,
    ;
    assert(pow10(lb1) * pow10(pb) <= digits_value(sb) * pow10(pb)) by (nonlinear_arith)
        requires
            pow10(lb1) <= digits_value(sb),
    ;
}

#[verifier::loop_isolation(false)]
/// Order of `a[ia..] * 10^pa` and `b[ib..] * 10^pb`, where neither part has
/// a leading zero.
pub fn compare_scaled(a: &Vec<u8>, ia: usize, pa: u64, b: &Vec<u8>, ib: usize, pb: u64) -> (r:
    Ordering)
    requires
        all_digits(a@),
        all_digits(b@),
        ia <= a.len(),
        ib <= b.len(),
        ia < a.len() ==> a[ia as int] != 0,
        ib < b.len() ==> b[ib as int] != 0,
    ensures
        r == int_order(
            (digits_value(a@.subrange(ia as int, a.len() as int)) * pow10(pa as nat)) as int,
            (digits_value(b@.subrange(ib as int, b.len() as int)) * pow10(pb as nat)) as int,
        ),
{
    let la = a.len() - ia;
    let lb = b.len() - ib;
    let ghost sa = a@.subrange(ia as int, a.len() as int);
    let ghost sb = b@.subrange(ib as int, b.len() as int);
    proof {
        assert(all_digits(sa)) by {
            assert forall|i: int| 0 <= i < sa.len() implies #[trigger] sa[i] < 10 by {
                assert(sa[i] == a@[ia + i]);
            }
        }
        assert(all_digits(sb)) by {
            assert forall|i: int| 0 <= i < sb.len() implies #[trigger] sb[i] < 10 by {
                assert(sb[i] == b@[ib + i]);
            }
        }
        lemma_pow10_positive(pa as nat);
        lemma_pow10_positive(pb as nat);
    }
    if la == 0 || lb == 0 {
        proof {
            if la == 0 {
                assert(digits_value(sa) == 0);
                assert(digits_value(sa) * pow10(pa as nat) == 0) by (nonlinear_arith)
                    requires
                        digits_value(sa) == 0,
                ;
            }
            if lb == 0 {
                assert(digits_value(sb) == 0);
                assert(digits_value(sb) * pow10(pb as nat) == 0) by (nonlinear_arith)
                    requires
                        digits_value(sb) == 0,
                ;
            }
            if la != 0 {
                lemma_lower(sa);
                lemma_pow10_positive((sa.len() - 1) as nat);
                assert(digits_value(sa) * pow10(pa as nat) > 0) by (nonlinear_arith)
                    requires
                        digits_value(sa) > 0,
                        pow10(pa as nat) > 0,
                ;
            }
            if lb != 0 {
                lemma_lower(sb);
                lemma_pow10_positive((sb.len() - 1) as nat);
                assert(digits_value(sb) * pow10(pb as nat) > 0) by (nonlinear_arith)
                    requires
                        digits_value(sb) > 0,
                        pow10(pb as nat) > 0,
                ;
            }
        }
        return if la == 0 && lb == 0 {
            Ordering::Equal
        } else if la == 0 {
            Ordering::Less
        } else {
            Ordering::Greater
        };
    }
    let na: u128 = la as u128 + pa as u128;
    let nb: u128 = lb as u128 + pb as u128;
    if na < nb {
        proof {
            lemma_fewer_places(sa, pa as nat, sb, pb as nat);
        }
        return Ordering::Less;
    }
    if na > nb {
        proof {
            lemma_fewer_places(sb, pb as nat, sa, pa as nat);
        }
        return Ordering::Greater;
    }
    let ghost xa = padded(sa, pa as nat);
    let ghost xb = padded(sb, pb as nat);
    proof {
        lemma_padded(sa, pa as nat);
        lemma_padded(sb, pb as nat);
        lemma_padded_digits(sa, pa as nat);
        lemma_padded_digits(sb, pb as nat);
    }
    let m: usize = if la >= lb { la } else { lb };
    let mut k: usize = 0;
    while k < m
        invariant
            k <= m,
            m == if la >= lb { la } else { lb },
            xa.len() == xb.len(),
            m <= xa.len(),
            forall|j: int| 0 <= j < k ==> #[trigger] xa[j] == xb[j],
        decreases m - k,
    {
        let da: u8 = if k < la { a[ia + k] } else { 0 };
        let db: u8 = if k < lb { b[ib + k] } else { 0 };
        assert(xa[k as int] == da);
        assert(xb[k as int] == db);
        if da < db {
            proof {
                lemma_lex(xa, xb, k as int);
            }
            return Ordering::Less;
        }
        if da > db {
            proof {
                lemma_lex(xb, xa, k as int);
            }
            return Ordering::Greater;
        }
        k = k + 1;
    }
    assert(xa =~= xb) by {
        assert forall|j: int| 0 <= j < xa.len() implies xa[j] == xb[j] by {
            if j >= m {
                assert(xa[j] == 0);
                assert(xb[j] == 0);
            }
        }
    }
    Ordering::Equal
}

} // verus!

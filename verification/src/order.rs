//! Lexicographic order of sequences.

use vstd::prelude::*;

verus! {

/// `a` comes before `b`: at the first difference its item is the smaller one,
/// or it ends where `b` goes on.
pub open spec fn lex_less<T>(a: Seq<T>, b: Seq<T>, less: spec_fn(T, T) -> bool) -> bool
    decreases a.len(),
{
    if b.len() == 0 {
        false
    } else if a.len() == 0 {
        true
    } else {
        less(a[0], b[0]) || (a[0] == b[0] && lex_less(a.skip(1), b.skip(1), less))
    }
}

/// A strict order in which any two different items are comparable.
pub open spec fn strict_order<T>(less: spec_fn(T, T) -> bool) -> bool {
    &&& forall|x: T, y: T| #[trigger] less(x, y) ==> x != y && !less(y, x)
    &&& forall|x: T, y: T, z: T| #[trigger] less(x, y) && #[trigger] less(y, z) ==> less(x, z)
    &&& forall|x: T, y: T| x != y ==> #[trigger] less(x, y) || less(y, x)
}

/// Different sequences are comparable, in one direction only.
pub proof fn lex_decides<T>(a: Seq<T>, b: Seq<T>, less: spec_fn(T, T) -> bool)
    requires
        strict_order(less),
    ensures
        lex_less(a, b, less) ==> a != b && !lex_less(b, a, less),
        a != b ==> lex_less(a, b, less) || lex_less(b, a, less),
    decreases a.len(),
{
    if a.len() > 0 && b.len() > 0 {
        let (x, y) = (a[0], b[0]);
        lex_decides(a.skip(1), b.skip(1), less);
        assert(less(x, y) ==> x != y && !less(y, x));
        assert(less(y, x) ==> x != y && !less(x, y));
        if x != y {
            assert(less(x, y) || less(y, x));
        }
        if a != b && x == y {
            if a.skip(1) == b.skip(1) {
                assert(a =~= seq![x] + a.skip(1));
                assert(b =~= seq![y] + b.skip(1));
            }
        }
    } else if a.len() == 0 && b.len() == 0 {
        assert(a =~= b);
    }
}

/// The order is transitive.
pub proof fn lex_chains<T>(a: Seq<T>, b: Seq<T>, c: Seq<T>, less: spec_fn(T, T) -> bool)
    requires
        strict_order(less),
        lex_less(a, b, less),
        lex_less(b, c, less),
    ensures
        lex_less(a, c, less),
    decreases a.len(),
{
    if a.len() > 0 {
        let (x, y, z) = (a[0], b[0], c[0]);
        if less(x, y) && less(y, z) {
            assert(less(x, z));
        } else if x == y && y == z {
            assert(!less(x, y) && !less(y, z));
            lex_chains(a.skip(1), b.skip(1), c.skip(1), less);
        }
    }
}

/// Bytes in their usual order.
pub open spec fn byte_less() -> spec_fn(u8, u8) -> bool {
    |x: u8, y: u8| x < y
}

/// Whether one byte string comes before another.
pub fn bytes_less(a: &[u8], b: &[u8]) -> (r: bool)
    ensures
        r == lex_less(a@, b@, byte_less()),
{
    let mut i: usize = 0;
    assert(a@.skip(0) =~= a@);
    assert(b@.skip(0) =~= b@);
    while i < a.len() && i < b.len()
        invariant
            i <= a@.len(),
            i <= b@.len(),
            lex_less(a@, b@, byte_less()) == lex_less(
                a@.skip(i as int),
                b@.skip(i as int),
                byte_less(),
            ),
        decreases a@.len() - i,
    {
        if a[i] < b[i] {
            return true;
        }
        if b[i] < a[i] {
            return false;
        }
        assert(a@.skip(i as int).skip(1) =~= a@.skip(i + 1));
        assert(b@.skip(i as int).skip(1) =~= b@.skip(i + 1));
        i = i + 1;
    }
    i < b.len()
}

/// Law: what the order decides by. One sequence comes before another exactly if
/// they agree up to some place, and there the first has the smaller item, or ends
/// where the other goes on.
pub proof fn first_difference_decides<T>(a: Seq<T>, b: Seq<T>, less: spec_fn(T, T) -> bool)
    ensures
        lex_less(a, b, less) <==> exists|k: int|
            0 <= k <= a.len() && k < b.len() && #[trigger] a.take(k) == b.take(k) && (k == a.len()
                || less(a[k], b[k])),
    decreases a.len(),
{
    if a.len() > 0 && b.len() > 0 {
        let (x, y) = (a.skip(1), b.skip(1));
        first_difference_decides(x, y, less);
        if less(a[0], b[0]) {
            assert(a.take(0) =~= b.take(0));
        } else if lex_less(a, b, less) {
            let k = choose|k: int|
                0 <= k <= x.len() && k < y.len() && #[trigger] x.take(k) == y.take(k) && (k
                    == x.len() || less(x[k], y[k]));
            assert forall|i: int| 0 <= i < k + 1 implies a[i] == #[trigger] b[i] by {
                if i > 0 {
                    assert(x.take(k)[i - 1] == y.take(k)[i - 1]);
                }
            }
            assert(a.take(k + 1) =~= b.take(k + 1));
        }
        if exists|k: int|
            0 <= k <= a.len() && k < b.len() && #[trigger] a.take(k) == b.take(k) && (k == a.len()
                || less(a[k], b[k])) {
            let k = choose|k: int|
                0 <= k <= a.len() && k < b.len() && #[trigger] a.take(k) == b.take(k) && (k
                    == a.len() || less(a[k], b[k]));
            if k > 0 {
                assert(a.take(k)[0] == b.take(k)[0]);
                assert forall|i: int| 0 <= i < k - 1 implies x[i] == #[trigger] y[i] by {
                    assert(a.take(k)[i + 1] == b.take(k)[i + 1]);
                }
                assert(x.take(k - 1) =~= y.take(k - 1));
            }
        }
    } else if b.len() > 0 {
        assert(a.take(0) =~= b.take(0));
    }
}

/// Law: bytes are ordered by their values.
pub proof fn bytes_are_ordered(x: u8, y: u8)
    ensures
        byte_less()(x, y) <==> (x as int) < (y as int),
{
}

} // verus!

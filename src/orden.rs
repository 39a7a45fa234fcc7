use vstd::prelude::*;

verus! {

/// No element of `s` comes strictly before an earlier one under `lt`.
pub open spec fn ordered<T>(s: Seq<T>, lt: spec_fn(T, T) -> bool) -> bool {
    forall|i: int, j: int| 0 <= i < j < s.len() ==> !lt(#[trigger] s[j], #[trigger] s[i])
}

/// `lt` is a strict order: irreflexive and transitive.
pub open spec fn strict_order<T>(lt: spec_fn(T, T) -> bool) -> bool {
    &&& forall|a: T| !#[trigger] lt(a, a)
    &&& forall|a: T, b: T, c: T| #[trigger] lt(a, b) && #[trigger] lt(b, c) ==> lt(a, c)
}

/// Inserts `x` into the ordered `v` after every element that `x` does not come
/// strictly before, so that `v` stays ordered and equal elements keep the order
/// in which they were inserted.
pub fn insert_ordered<T, F: Fn(&T, &T) -> bool>(
    v: &mut Vec<T>,
    x: T,
    before: &F,
    Ghost(lt): Ghost<spec_fn(T, T) -> bool>,
)
    requires
        forall|a: &T, b: &T| #[trigger] before.requires((a, b)),
        forall|a: &T, b: &T, r: bool| before.ensures((a, b), r) ==> r == lt(*a, *b),
        strict_order(lt),
        ordered(old(v)@, lt),
    ensures
        final(v)@.to_multiset() == old(v)@.to_multiset().insert(x),
        final(v)@.len() == old(v)@.len() + 1,
        ordered(final(v)@, lt),
{
    let mut p: usize = 0;
    let mut stop = false;
    while p < v.len() && !stop
        invariant
            p <= v@.len(),
            forall|a: &T, b: &T| #[trigger] before.requires((a, b)),
            forall|a: &T, b: &T, r: bool| before.ensures((a, b), r) ==> r == lt(*a, *b),
            forall|i: int| 0 <= i < p ==> !lt(x, #[trigger] v@[i]),
            stop ==> p < v@.len() && lt(x, v@[p as int]),
        decreases v@.len() - p + (if stop { 0int } else { 1int }),
    {
        if before(&x, &v[p]) {
            stop = true;
        } else {
            p = p + 1;
        }
    }
    let ghost s = v@;
    proof {
        vstd::seq_lib::to_multiset_insert(s, p as int, x);
    }
    v.insert(p, x);
    assert forall|i: int, j: int| 0 <= i < j < v@.len() implies !lt(
        #[trigger] v@[j],
        #[trigger] v@[i],
    ) by {
        let n = v@;
        if j < p {
            assert(n[i] == s[i] && n[j] == s[j]);
        } else if j == p {
            assert(n[i] == s[i]);
        } else if i == p {
            assert(n[j] == s[j - 1]);
            assert(lt(x, s[p as int]));
            if lt(s[j - 1], x) {
                assert(lt(s[j - 1], s[p as int]));
                if j - 1 > p {
                    assert(!lt(s[j - 1], s[p as int]));
                }
            }
        } else if i < p {
            assert(n[i] == s[i] && n[j] == s[j - 1]);
        } else {
            assert(n[i] == s[i - 1] && n[j] == s[j - 1]);
        }
    }
}

} // verus!

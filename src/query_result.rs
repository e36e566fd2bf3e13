use vstd::prelude::*;
use core::cmp::Ordering;
use vstd::multiset::Multiset;
use vstd::std_specs::cmp::PartialOrdSpec;

verus! {

/// Whether `a` orders strictly before `b`.
pub open spec fn before<T: PartialOrd>(a: T, b: T) -> bool {
    a.partial_cmp_spec(&b) == Some(Ordering::Less)
}

/// Whether `T`'s comparison is a total order: any two values compare, and `a` before `b`
/// exactly when `b` compares greater than `a`.
pub open spec fn total_order<T: PartialOrd>() -> bool {
    &&& T::obeys_partial_cmp_spec()
    &&& forall|a: T, b: T| #[trigger] a.partial_cmp_spec(&b) is Some
    &&& forall|a: T, b: T| #[trigger] before(a, b) ==> b.partial_cmp_spec(&a) == Some(Ordering::Greater)
}

/// Whether no item of `s` orders strictly before the one ahead of it.
pub open spec fn sorted<T: PartialOrd>(s: Seq<T>) -> bool {
    forall|i: int| 0 <= i < s.len() - 1 ==> !before(#[trigger] s[i + 1], s[i])
}

/// A sorted collection of query results and its size.
pub struct QueryResult<T> {
    pub count: usize,
    pub items: Vec<T>,
}

impl<T: PartialOrd> QueryResult<T> {
    /// The items sorted, keeping the input order of equal items, with their count.
    pub fn new(items: Vec<T>) -> (r: Self)
        requires
            total_order::<T>(),
        ensures
            r.count == r.items@.len(),
            r.items@.to_multiset() == items@.to_multiset(),
            sorted(r.items@),
    {
        broadcast use vstd::seq_lib::group_to_multiset_ensures;
        let mut rest = items;
        let mut out: Vec<T> = Vec::new();
        while rest.len() > 0
            invariant
                total_order::<T>(),
                out@.to_multiset().add(rest@.to_multiset()) == items@.to_multiset(),
                sorted(out@),
            decreases rest@.len(),
        {
            let ghost r0 = rest@;
            let x = rest.remove(0);
            proof {
                r0.to_multiset_ensures();
                assert(rest@ == r0.remove(0));
                assert(r0.remove(0).to_multiset() == r0.to_multiset().remove(r0[0]));
            }
            let mut p: usize = out.len();
            while p > 0 && matches!(x.partial_cmp(&out[p - 1]), Some(Ordering::Less))
                invariant
                    total_order::<T>(),
                    p <= out@.len(),
                    p < out@.len() ==> before(x, out@[p as int]),
                decreases p,
            {
                p = p - 1;
            }
            let ghost o0 = out@;
            out.insert(p, x);
            proof {
                assert(out@.remove(p as int) =~= o0);
                assert(out@[p as int] == x);
                out@.to_multiset_ensures();
                assert(out@.remove(p as int).to_multiset() == out@.to_multiset().remove(x));
                assert(out@.to_multiset().count(x) > 0);
                assert(out@.to_multiset() =~= o0.to_multiset().insert(x));
                assert(r0.to_multiset().count(x) > 0);
                assert(r0.to_multiset() =~= rest@.to_multiset().insert(x));
                assert(out@.to_multiset().add(rest@.to_multiset()) =~= items@.to_multiset());
                assert forall|i: int| 0 <= i < out@.len() - 1 implies !before(#[trigger] out@[i + 1], out@[i]) by {
                    if i + 1 < p {
                        assert(out@[i + 1] == o0[i + 1] && out@[i] == o0[i]);
                    } else if i + 1 == p {
                        assert(out@[i] == o0[i]);
                    } else if i == p {
                        assert(out@[i + 1] == o0[p as int]);
                        assert(before(x, o0[p as int]));
                    } else {
                        assert(out@[i + 1] == o0[i] && out@[i] == o0[i - 1]);
                    }
                }
            }
        }
        assert(rest@.to_multiset() =~= Multiset::empty());
        assert(out@.to_multiset().add(Multiset::empty()) =~= out@.to_multiset());
        QueryResult { count: out.len(), items: out }
    }
}

} // verus!

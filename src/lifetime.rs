use crate::graph::RenderGraph;
use crate::resource::GraphRawResourceHandle;
use vstd::prelude::*;

verus! {

/// The span of passes over which a logical resource is in use.
#[derive(Clone, Copy, Debug, PartialEq, Eq, Structural)]
pub struct ResourceLifetime {
    pub first_access: usize,
    pub last_access: usize,
}

/// `lt` is the lifetime of resource `r` in `g`: it starts at the creating
/// pass and ends at the last pass that reads or writes it, or at the creating
/// pass if none does.
pub open spec fn is_lifetime_of<F>(g: RenderGraph<F>, r: int, lt: ResourceLifetime) -> bool {
    &&& lt.first_access == g.resources@[r].create_pass_idx
    &&& lt.first_access <= lt.last_access
    &&& forall|p: int|
        0 <= p < g.passes@.len() && #[trigger] g.passes@[p].touches(r as u32) ==> p
            <= lt.last_access
    &&& lt.last_access == lt.first_access || ((lt.last_access as int) < g.passes@.len()
        && g.passes@[lt.last_access as int].touches(r as u32))
}

/// Within one pass: after the first `k` handles of `s` (seen in pass `p`),
/// every lifetime that `s` names reaches `p`.
spec fn reached(lts: Seq<ResourceLifetime>, s: Seq<GraphRawResourceHandle>, k: int, p: int) -> bool {
    forall|i: int| 0 <= i < k ==> lts[s[i].id as int].last_access == p
}

impl<F> RenderGraph<F> {
    /// The lifetime of every logical resource, by id.
    pub fn calculate_resource_lifetimes(&self) -> (r: Vec<ResourceLifetime>)
        requires
            self.wf(),
        ensures
            r@.len() == self.resources@.len(),
            forall|i: int| 0 <= i < r@.len() ==> is_lifetime_of(*self, i, #[trigger] r@[i]),
    {
        let mut lts: Vec<ResourceLifetime> = Vec::new();
        let n = self.resources.len();
        let mut i: usize = 0;
        while i < n
            invariant
                n == self.resources@.len(),
                i <= n,
                lts@.len() == i,
                forall|j: int|
                    0 <= j < i ==> #[trigger] lts@[j] == (ResourceLifetime {
                        first_access: self.resources@[j].create_pass_idx,
                        last_access: self.resources@[j].create_pass_idx,
                    }),
            decreases n - i,
        {
            let c = self.resources[i].create_pass_idx;
            lts.push(ResourceLifetime { first_access: c, last_access: c });
            i = i + 1;
        }
        let np = self.passes.len();
        let mut p: usize = 0;
        while p < np
            invariant
                self.wf(),
                n == self.resources@.len(),
                np == self.passes@.len(),
                p <= np,
                lts@.len() == n,
                forall|j: int|
                    0 <= j < n ==> {
                        &&& (#[trigger] lts@[j]).first_access == self.resources@[j].create_pass_idx
                        &&& lts@[j].first_access <= lts@[j].last_access
                        &&& (lts@[j].last_access as int) < p || lts@[j].last_access
                            == lts@[j].first_access
                        &&& forall|q: int|
                            0 <= q < p && #[trigger] self.passes@[q].touches(j as u32) ==> q
                                <= lts@[j].last_access
                        &&& lts@[j].last_access == lts@[j].first_access || self.passes@[
                            lts@[j].last_access as int
                        ].touches(j as u32)
                    },
            decreases np - p,
        {
            let pass = &self.passes[p];
            assert(pass.valid_at(self.resources@, p as int));
            let ghost before = lts@;
            self.touch_all(&mut lts, &pass.read, p);
            let ghost mid = lts@;
            self.touch_all(&mut lts, &pass.write, p);
            proof {
                assert forall|j: int| 0 <= j < n implies {
                    &&& (#[trigger] lts@[j]).first_access == self.resources@[j].create_pass_idx
                    &&& lts@[j].first_access <= lts@[j].last_access
                    &&& (lts@[j].last_access as int) < p + 1 || lts@[j].last_access
                        == lts@[j].first_access
                    &&& forall|q: int|
                        0 <= q < p + 1 && #[trigger] self.passes@[q].touches(j as u32) ==> q
                            <= lts@[j].last_access
                    &&& lts@[j].last_access == lts@[j].first_access || self.passes@[
                        lts@[j].last_access as int
                    ].touches(j as u32)
                } by {
                    let jj = j as u32;
                    assert(jj as int == j);
                    if pass.touches(jj) {
                        if pass.reads(jj) {
                            let k = choose|k: int| 0 <= k < pass.read@.len() && pass.read@[k].id == jj;
                            assert(mid[pass.read@[k].id as int].last_access == p);
                        } else {
                            let k = choose|k: int| 0 <= k < pass.write@.len() && pass.write@[k].id == jj;
                            assert(lts@[pass.write@[k].id as int].last_access == p);
                        }
                        assert(lts@[j].last_access == p);
                    } else {
                        assert(lts@[j] == before[j]);
                    }
                }
            }
            p = p + 1;
        }
        proof {
            assert forall|i: int| 0 <= i < lts@.len() implies is_lifetime_of(*self, i, #[trigger] lts@[i]) by {
                assert(self.resources@[i].create_pass_idx < self.passes@.len());
            }
        }
        lts
    }

    /// Extends to pass `p` the lifetime of every resource that `s` names.
    fn touch_all(&self, lts: &mut Vec<ResourceLifetime>, s: &Vec<GraphRawResourceHandle>, p: usize)
        requires
            forall|i: int|
                0 <= i < s@.len() ==> {
                    &&& (s@[i].id as int) < old(lts)@.len()
                    &&& old(lts)@[s@[i].id as int].first_access <= p
                },
        ensures
            final(lts)@.len() == old(lts)@.len(),
            reached(final(lts)@, s@, s@.len() as int, p as int),
            forall|j: int|
                0 <= j < old(lts)@.len() ==> {
                    &&& (#[trigger] final(lts)@[j]).first_access == old(lts)@[j].first_access
                    &&& (final(lts)@[j] == old(lts)@[j] || final(lts)@[j].last_access == p)
                    &&& (final(lts)@[j] != old(lts)@[j] ==> exists|k: int|
                        0 <= k < s@.len() && s@[k].id as int == j)
                },
    {
        let mut k: usize = 0;
        while k < s.len()
            invariant
                k <= s@.len(),
                lts@.len() == old(lts)@.len(),
                forall|i: int|
                    0 <= i < s@.len() ==> {
                        &&& (s@[i].id as int) < old(lts)@.len()
                        &&& old(lts)@[s@[i].id as int].first_access <= p
                    },
                reached(lts@, s@, k as int, p as int),
                forall|j: int|
                    0 <= j < old(lts)@.len() ==> {
                        &&& (#[trigger] lts@[j]).first_access == old(lts)@[j].first_access
                        &&& (lts@[j] == old(lts)@[j] || lts@[j].last_access == p)
                        &&& (lts@[j] != old(lts)@[j] ==> exists|i: int|
                            0 <= i < s@.len() && s@[i].id as int == j)
                    },
            decreases s@.len() - k,
        {
            let id = s[k].id as usize;
            let first = lts[id].first_access;
            lts.set(id, ResourceLifetime { first_access: first, last_access: p });
            k = k + 1;
        }
    }
}

} // verus!

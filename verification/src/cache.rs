//! What the server keeps between two requests: the days that it serves,
//! and who has been told of them. Each of the two is kept by one owner at a
//! time; who may touch them when is for the caller to arrange.

use crate::extract::{vday_views, VDay, VDayView};
use vstd::prelude::*;

verus! {

/// The days that are served.
#[derive(Clone, Debug, PartialEq, Eq)]
pub struct VdayCache(pub Vec<VDay>);

impl View for VdayCache {
    type V = Seq<VDayView>;

    open spec fn view(&self) -> Seq<VDayView> {
        vday_views(self.0@)
    }
}

impl VdayCache {
    /// A cache that serves no day yet.
    pub fn new() -> (r: Self)
        ensures
            r@ == Seq::<VDayView>::empty(),
    {
        let r = VdayCache(Vec::new());
        assert(r@ =~= Seq::<VDayView>::empty());
        r
    }

    /// Serves `vdays` from now on, in place of all that was served before.
    pub fn replace(&mut self, vdays: Vec<VDay>)
        ensures
            final(self).0 == vdays,
            final(self)@ == vday_views(vdays@),
    {
        self.0 = vdays;
    }

    /// The days that are served.
    pub fn vdays(&self) -> (r: &Vec<VDay>)
        ensures
            *r == self.0,
    {
        &self.0
    }
}

/// The clients that have been told of the days served, each by its token.
#[derive(Clone, Debug, PartialEq, Eq)]
pub struct UpdatedList(pub Vec<u128>);

impl View for UpdatedList {
    type V = Set<u128>;

    open spec fn view(&self) -> Set<u128> {
        Set::new(|id: u128| self.0@.contains(id))
    }
}

impl UpdatedList {
    /// A list that names no client.
    pub fn new() -> (r: Self)
        ensures
            r@ == Set::<u128>::empty(),
    {
        let r = UpdatedList(Vec::new());
        assert(r@ =~= Set::<u128>::empty());
        r
    }

    /// Whether the client `id` is told of the days served for the first
    /// time since the list was last cleared. The client is on the list
    /// afterwards.
    pub fn updated(&mut self, id: u128) -> (r: bool)
        ensures
            r == !old(self)@.contains(id),
            final(self)@ == old(self)@.insert(id),
    {
        let mut k: usize = 0;
        while k < self.0.len()
            invariant
                k <= self.0.len(),
                *self == *old(self),
                forall|j: int| 0 <= j < k ==> self.0@[j] != id,
            decreases self.0.len() - k,
        {
            if self.0[k] == id {
                assert(self@ =~= self@.insert(id));
                return false;
            }
            k += 1;
        }
        self.0.push(id);
        assert(self@ =~= old(self)@.insert(id)) by {
            assert forall|t: u128| self@.contains(t) == old(self)@.insert(id).contains(
                t,
            ) by {
                if self.0@.contains(t) {
                    let j = choose|j: int| 0 <= j < self.0@.len() && self.0@[j] == t;
                    if j < old(self).0@.len() {
                        assert(old(self).0@[j] == t);
                    }
                }
                if old(self).0@.contains(t) {
                    let j = choose|j: int| 0 <= j < old(self).0@.len() && old(self).0@[j] == t;
                    assert(self.0@[j] == t);
                }
                if t == id {
                    assert(self.0@[old(self).0@.len() as int] == t);
                }
            }
        }
        true
    }

    /// Forgets every client: each is new to the days served.
    pub fn clear(&mut self)
        ensures
            final(self)@ == Set::<u128>::empty(),
    {
        self.0.clear();
        assert(self@ =~= Set::<u128>::empty());
    }
}

} // verus!

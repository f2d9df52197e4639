//! The feeder registry: the authorised feeders, kept strictly ascending so
//! that membership and the insertion point are found by binary search.
use vstd::prelude::*;

verus! {

/// A feeder's identity.
pub type FeederId = u64;

/// Every element is smaller than every later one: ascending, without duplicates.
pub open spec fn strictly_ascending(s: Seq<FeederId>) -> bool {
    forall|i: int, j: int| 0 <= i < j < s.len() ==> #[trigger] s[i] < #[trigger] s[j]
}

/// Binary search of `x` in a strictly ascending list: `Ok` with its index
/// when present, otherwise `Err` with the index where it would be inserted.
pub fn binary_search(v: &Vec<FeederId>, x: FeederId) -> (r: Result<usize, usize>)
    requires
        strictly_ascending(v@),
    ensures
        match r {
            Ok(i) => i < v@.len() && v@[i as int] == x,
            Err(i) => i <= v@.len() && !v@.contains(x) && (forall|j: int|
                0 <= j < i ==> #[trigger] v@[j] < x) && (forall|j: int|
                i <= j < v@.len() ==> x < #[trigger] v@[j]),
        },
{
    let mut lo: usize = 0;
    let mut hi: usize = v.len();
    while lo < hi
        invariant
            lo <= hi <= v@.len(),
            strictly_ascending(v@),
            forall|j: int| 0 <= j < lo ==> #[trigger] v@[j] < x,
            forall|j: int| hi <= j < v@.len() ==> x < #[trigger] v@[j],
        decreases hi - lo,
    {
        let mid = lo + (hi - lo) / 2;
        if v[mid] < x {
            proof {
                assert forall|j: int| 0 <= j < mid + 1 implies #[trigger] v@[j] < x by {
                    if j < mid {
                        assert(v@[j] < v@[mid as int]);
                    }
                }
            }
            lo = mid + 1;
        } else if x < v[mid] {
            proof {
                assert forall|j: int| mid <= j < v@.len() implies x < #[trigger] v@[j] by {
                    if j > mid {
                        assert(v@[mid as int] < v@[j]);
                    }
                }
            }
            hi = mid;
        } else {
            return Ok(mid);
        }
    }
    proof {
        if v@.contains(x) {
            let j = choose|j: int| 0 <= j < v@.len() && v@[j] == x;
            assert(v@[j] == x);
        }
    }
    Err(lo)
}

/// The authorised feeders, strictly ascending.
pub struct FeederRegistry {
    feeders: Vec<FeederId>,
}

impl View for FeederRegistry {
    type V = Seq<FeederId>;

    closed spec fn view(&self) -> Seq<FeederId> {
        self.feeders@
    }
}

impl FeederRegistry {
    /// Well-formedness: the list is strictly ascending.
    pub open spec fn wf(&self) -> bool {
        strictly_ascending(self@)
    }

    /// A registry with no feeder.
    pub fn new() -> (r: Self)
        ensures
            r.wf(),
            r@ == Seq::<FeederId>::empty(),
    {
        FeederRegistry { feeders: Vec::new() }
    }

    /// Whether `who` is a feeder.
    pub fn is_feeder(&self, who: FeederId) -> (r: bool)
        requires
            self.wf(),
        ensures
            r == self@.contains(who),
    {
        match binary_search(&self.feeders, who) {
            Ok(i) => {
                assert(self@[i as int] == who);
                true
            },
            Err(_) => false,
        }
    }

    /// Adds `feeder` at its place in the order. Returns `false`, and changes
    /// nothing, when it is already a feeder.
    pub fn elect(&mut self, feeder: FeederId) -> (r: bool)
        requires
            old(self).wf(),
        ensures
            final(self).wf(),
            r == !old(self)@.contains(feeder),
            forall|x: FeederId| #[trigger] final(self)@.contains(x) <==> (old(self)@.contains(x) || x == feeder),
            !r ==> final(self)@ == old(self)@,
    {
        match binary_search(&self.feeders, feeder) {
            Ok(i) => {
                assert(self@[i as int] == feeder);
                false
            },
            Err(pos) => {
                let ghost s = self.feeders@;
                self.feeders.insert(pos, feeder);
                proof {
                    s.insert_ensures(pos as int, feeder);
                    let n = self.feeders@;
                    assert(n == s.insert(pos as int, feeder));
                    assert forall|i: int, j: int| 0 <= i < j < n.len() implies #[trigger] n[i] < #[trigger] n[j] by {
                        if j < pos {
                            assert(n[i] == s[i] && n[j] == s[j]);
                        } else if j == pos {
                            assert(n[i] == s[i]);
                        } else if i < pos {
                            assert(n[i] == s[i] && n[j] == s[j - 1]);
                        } else if i == pos {
                            assert(n[j] == s[j - 1]);
                        } else {
                            assert(n[i] == s[i - 1] && n[j] == s[j - 1]);
                        }
                    }
                    assert forall|x: FeederId| #[trigger] n.contains(x) <==> (s.contains(x) || x == feeder) by {
                        if n.contains(x) {
                            let i = choose|i: int| 0 <= i < n.len() && n[i] == x;
                            if i < pos {
                                assert(s[i] == x);
                            } else if i > pos {
                                assert(s[i - 1] == x);
                            }
                        }
                        if s.contains(x) {
                            let i = choose|i: int| 0 <= i < s.len() && s[i] == x;
                            if i < pos {
                                assert(n[i] == x);
                            } else {
                                assert(n[i + 1] == x);
                            }
                        }
                        if x == feeder {
                            assert(n[pos as int] == x);
                        }
                    }
                }
                true
            },
        }
    }

    /// Takes `feeder` out. Returns `false`, and changes nothing, when it is
    /// not a feeder.
    pub fn remove(&mut self, feeder: FeederId) -> (r: bool)
        requires
            old(self).wf(),
        ensures
            final(self).wf(),
            r == old(self)@.contains(feeder),
            forall|x: FeederId| #[trigger] final(self)@.contains(x) <==> (old(self)@.contains(x) && x != feeder),
            !r ==> final(self)@ == old(self)@,
    {
        match binary_search(&self.feeders, feeder) {
            Ok(pos) => {
                let ghost s = self.feeders@;
                self.feeders.remove(pos);
                proof {
                    s.remove_ensures(pos as int);
                    let n = self.feeders@;
                    assert(n == s.remove(pos as int));
                    assert forall|i: int, j: int| 0 <= i < j < n.len() implies #[trigger] n[i] < #[trigger] n[j] by {
                        if j < pos {
                            assert(n[i] == s[i] && n[j] == s[j]);
                        } else if i < pos {
                            assert(n[i] == s[i] && n[j] == s[j + 1]);
                        } else {
                            assert(n[i] == s[i + 1] && n[j] == s[j + 1]);
                        }
                    }
                    assert forall|x: FeederId| #[trigger] n.contains(x) <==> (s.contains(x) && x != feeder) by {
                        if n.contains(x) {
                            let i = choose|i: int| 0 <= i < n.len() && n[i] == x;
                            if i < pos {
                                assert(s[i] == x);
                                assert(s[i] < s[pos as int]);
                            } else {
                                assert(s[i + 1] == x);
                                assert(s[pos as int] < s[i + 1]);
                            }
                        }
                        if s.contains(x) && x != feeder {
                            let i = choose|i: int| 0 <= i < s.len() && s[i] == x;
                            if i < pos {
                                assert(n[i] == x);
                            } else {
                                assert(i != pos);
                                assert(n[i - 1] == x);
                            }
                        }
                    }
                }
                true
            },
            Err(_) => false,
        }
    }

    /// The feeders, ascending.
    pub fn to_vec(&self) -> (r: Vec<FeederId>)
        ensures
            r@ == self@,
    {
        let mut r: Vec<FeederId> = Vec::new();
        let mut i: usize = 0;
        while i < self.feeders.len()
            invariant
                i <= self.feeders@.len(),
                r@ == self.feeders@.take(i as int),
            decreases self.feeders@.len() - i,
        {
            r.push(self.feeders[i]);
            i = i + 1;
            proof {
                assert(r@ =~= self.feeders@.take(i as int));
            }
        }
        proof {
            assert(self.feeders@.take(i as int) =~= self.feeders@);
        }
        r
    }

    /// The number of feeders.
    pub fn len(&self) -> (r: usize)
        ensures
            r == self@.len(),
    {
        self.feeders.len()
    }

    /// The feeder at position `i` of the ascending order.
    pub fn get(&self, i: usize) -> (r: FeederId)
        requires
            i < self@.len(),
        ensures
            r == self@[i as int],
    {
        self.feeders[i]
    }
}

} // verus!

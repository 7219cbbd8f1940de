//! A set of package identifiers, stored as a duplicate-free vector of
//! strings and modelled as a mathematical set of character sequences.

use vstd::prelude::*;

verus! {

/// A finite set of package identifiers.
pub struct IdSet {
    ids: Vec<String>,
}

impl IdSet {
    /// The stored identifiers, in storage order.
    pub closed spec fn seq_view(&self) -> Seq<Seq<char>> {
        self.ids@.map_values(|s: String| s@)
    }

    /// The identifiers as a mathematical set.
    pub open spec fn view(&self) -> Set<Seq<char>> {
        Set::new(|x: Seq<char>| self.seq_view().contains(x))
    }

    /// No identifier is stored twice.
    pub closed spec fn wf(&self) -> bool {
        forall|i: int, j: int|
            0 <= i < j < self.seq_view().len() ==> self.seq_view()[i] != self.seq_view()[j]
    }

    pub fn new() -> (r: IdSet)
        ensures
            r.wf(),
            r.seq_view() == Seq::<Seq<char>>::empty(),
            r@ == Set::<Seq<char>>::empty(),
    {
        let r = IdSet { ids: Vec::new() };
        proof {
            assert(r.seq_view() =~= Seq::<Seq<char>>::empty());
            assert(r@ =~= Set::<Seq<char>>::empty());
        }
        r
    }

    /// How many identifiers the set holds.
    pub fn len(&self) -> (r: usize)
        ensures
            r == self.seq_view().len(),
    {
        self.ids.len()
    }

    /// The identifier at one storage position.
    pub fn idx(&self, i: usize) -> (r: &String)
        requires
            i < self.seq_view().len(),
        ensures
            r@ == self.seq_view()[i as int],
    {
        &self.ids[i]
    }

    pub fn contains(&self, id: &String) -> (r: bool)
        ensures
            r == self@.contains(id@),
    {
        let mut k: usize = 0;
        while k < self.ids.len()
            invariant
                k <= self.ids.len(),
                forall|j: int| 0 <= j < k ==> self.seq_view()[j] != id@,
            decreases self.ids.len() - k,
        {
            if self.ids[k].eq(id) {
                assert(self.seq_view()[k as int] == id@);
                assert(self.seq_view().contains(id@));
                return true;
            }
            k += 1;
        }
        assert(!self.seq_view().contains(id@)) by {
            if self.seq_view().contains(id@) {
                let j = choose|j: int|
                    0 <= j < self.seq_view().len() && self.seq_view()[j] == id@;
                assert(self.seq_view()[j] != id@);
            }
        }
        false
    }

    /// Adds an identifier; a no-op when it is already present.
    pub fn insert(&mut self, id: String)
        requires
            old(self).wf(),
        ensures
            final(self).wf(),
            final(self)@ == old(self)@.insert(id@),
            final(self).seq_view() == (if old(self)@.contains(id@) {
                old(self).seq_view()
            } else {
                old(self).seq_view().push(id@)
            }),
    {
        if self.contains(&id) {
            proof {
                assert(self@ =~= old(self)@.insert(id@));
            }
        } else {
            self.ids.push(id);
            proof {
                assert(self.seq_view() =~= old(self).seq_view().push(id@));
                assert(self@ =~= old(self)@.insert(id@)) by {
                    assert(forall|x: Seq<char>|
                        self.seq_view().contains(x) <==> (old(self).seq_view().contains(x)
                            || x == id@)) by {
                        assert(forall|x: Seq<char>| #[trigger] old(self).seq_view().contains(x)
                            ==> self.seq_view().contains(x)) by {
                            assert(forall|j: int|
                                0 <= j < old(self).seq_view().len()
                                    ==> self.seq_view()[j] == old(self).seq_view()[j]);
                        }
                        assert(self.seq_view()[old(self).seq_view().len() as int] == id@);
                    }
                }
                assert(self.wf()) by {
                    assert(forall|j: int|
                        0 <= j < old(self).seq_view().len()
                            ==> self.seq_view()[j] == old(self).seq_view()[j]);
                    assert(!old(self).seq_view().contains(id@));
                }
            }
        }
    }

    /// Removes an identifier; a no-op when it is absent.
    pub fn remove(&mut self, id: &String)
        requires
            old(self).wf(),
        ensures
            final(self).wf(),
            final(self)@ == old(self)@.remove(id@),
    {
        let ghost pre = *self;
        let mut k: usize = 0;
        while k < self.ids.len()
            invariant
                *self == pre,
                pre == *old(self),
                pre.wf(),
                k <= self.ids.len(),
                forall|j: int| 0 <= j < k ==> self.seq_view()[j] != id@,
            decreases self.ids.len() - k,
        {
            if self.ids[k].eq(id) {
                assert(pre.seq_view()[k as int] == id@);
                self.ids.remove(k);
                proof {
                    assert(self.seq_view()
                        =~= pre.seq_view().subrange(0, k as int) + pre.seq_view().subrange(
                        k as int + 1,
                        pre.seq_view().len() as int,
                    ));
                    assert(self.seq_view().len() == pre.seq_view().len() - 1);
                    assert(forall|i: int|
                        0 <= i < k ==> self.seq_view()[i] == pre.seq_view()[i]);
                    assert(forall|i: int|
                        k <= i < self.seq_view().len() ==> self.seq_view()[i]
                            == pre.seq_view()[i + 1]);
                    assert(forall|i0: int|
                        0 <= i0 < pre.seq_view().len() && i0 != k ==> pre.seq_view()[i0] != id@)
                        by {
                        assert(forall|i0: int|
                            0 <= i0 < k ==> pre.seq_view()[i0] != pre.seq_view()[k as int]);
                        assert(forall|i0: int|
                            k < i0 < pre.seq_view().len() ==> pre.seq_view()[k as int]
                                != pre.seq_view()[i0]);
                    }
                    assert(self.wf()) by {
                        assert(forall|i: int, j: int|
                            0 <= i < j < self.seq_view().len() ==> self.seq_view()[i]
                                != self.seq_view()[j]) by {
                            assert(forall|i: int, j: int|
                                0 <= i < j < self.seq_view().len() ==> {
                                    let i0 = if i < k {
                                        i
                                    } else {
                                        i + 1
                                    };
                                    let j0 = if j < k {
                                        j
                                    } else {
                                        j + 1
                                    };
                                    #[trigger] self.seq_view()[i] == pre.seq_view()[i0]
                                        && #[trigger] self.seq_view()[j] == pre.seq_view()[j0]
                                        && 0 <= i0 < j0 < pre.seq_view().len()
                                });
                        }
                    }
                    assert(self@ =~= pre@.remove(id@)) by {
                        assert(forall|x: Seq<char>|
                            #[trigger] self.seq_view().contains(x) ==> pre.seq_view().contains(x)
                                && x != id@) by {
                            assert(forall|i: int|
                                0 <= i < self.seq_view().len() ==> {
                                    let i0 = if i < k {
                                        i
                                    } else {
                                        i + 1
                                    };
                                    #[trigger] self.seq_view()[i] == pre.seq_view()[i0] && i0 != k
                                        && 0 <= i0 < pre.seq_view().len()
                                });
                        }
                        assert(forall|x: Seq<char>|
                            pre.seq_view().contains(x) && x != id@ ==> self.seq_view().contains(
                                x,
                            )) by {
                            assert(forall|i0: int|
                                0 <= i0 < pre.seq_view().len() && i0 != k ==> {
                                    let i = if i0 < k {
                                        i0
                                    } else {
                                        i0 - 1
                                    };
                                    #[trigger] pre.seq_view()[i0] == self.seq_view()[i]
                                });
                            assert(forall|i0: int|
                                0 <= i0 < pre.seq_view().len() && pre.seq_view()[i0] == id@
                                    ==> i0 == k);
                        }
                    }
                }
                return ;
            }
            k += 1;
        }
        proof {
            assert(!pre.seq_view().contains(id@)) by {
                if pre.seq_view().contains(id@) {
                    let j = choose|j: int|
                        0 <= j < pre.seq_view().len() && pre.seq_view()[j] == id@;
                    assert(pre.seq_view()[j] != id@);
                }
            }
            assert(self@ =~= old(self)@.remove(id@));
        }
    }

    /// The stored identifiers as a vector, for callers that walk the set.
    pub fn as_vec(&self) -> (r: &Vec<String>)
        ensures
            r@.len() == self.seq_view().len(),
            forall|i: int| 0 <= i < r@.len() ==> r@[i]@ == self.seq_view()[i],
    {
        &self.ids
    }
}

} // verus!

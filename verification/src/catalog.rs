//! The package catalog: the identifiers known to the tenant, plus an index
//! from display names to the identifiers registered under each name. The
//! index is a diagnostic aid only: display names are not unique, so each
//! name maps to the comma-joined list of its identifiers.

use vstd::prelude::*;
use crate::idset::IdSet;

verus! {

/// One catalog row as returned by the package listing.
pub struct CatalogEntry {
    pub id: String,
    pub name: String,
    pub mode: Option<String>,
}

/// The mathematical content of one catalog row.
pub ghost struct EntryModel {
    pub id: Seq<char>,
    pub name: Seq<char>,
    pub mode: Option<Seq<char>>,
}

impl View for CatalogEntry {
    type V = EntryModel;

    open spec fn view(&self) -> EntryModel {
        EntryModel {
            id: self.id@,
            name: self.name@,
            mode: match &self.mode {
                Some(m) => Some(m@),
                None => None,
            },
        }
    }
}

/// The set of identifiers a sequence of catalog rows carries.
pub open spec fn ids_model(s: Seq<EntryModel>) -> Set<Seq<char>> {
    Set::new(|x: Seq<char>| s.map_values(|e: EntryModel| e.id).contains(x))
}

/// The name index a sequence of catalog rows builds: each display name maps
/// to its identifiers, comma-joined in row order.
pub open spec fn name_index_model(s: Seq<EntryModel>) -> Map<Seq<char>, Seq<char>>
    decreases s.len(),
{
    if s.len() == 0 {
        Map::empty()
    } else {
        let m = name_index_model(s.drop_last());
        let e = s.last();
        if m.contains_key(e.name) {
            m.insert(e.name, m[e.name] + ","@ + e.id)
        } else {
            m.insert(e.name, e.id)
        }
    }
}

/// An index from display names to comma-joined identifier lists.
pub struct NameIndex {
    entries: Vec<(String, String)>,
}

impl NameIndex {
    /// The indexed names, in storage order.
    pub closed spec fn keys(&self) -> Seq<Seq<char>> {
        self.entries@.map_values(|e: (String, String)| e.0@)
    }

    /// The joined identifier lists, in storage order.
    pub closed spec fn vals(&self) -> Seq<Seq<char>> {
        self.entries@.map_values(|e: (String, String)| e.1@)
    }

    /// No name is indexed twice.
    pub closed spec fn wf(&self) -> bool {
        forall|i: int, j: int| 0 <= i < j < self.keys().len() ==> self.keys()[i] != self.keys()[j]
    }

    /// The index as a mathematical map.
    pub open spec fn view(&self) -> Map<Seq<char>, Seq<char>> {
        Map::new(
            |k: Seq<char>| self.keys().contains(k),
            |k: Seq<char>|
                {
                    let i = choose|i: int| 0 <= i < self.keys().len() && self.keys()[i] == k;
                    self.vals()[i]
                },
        )
    }

    pub fn new() -> (r: NameIndex)
        ensures
            r.wf(),
            r@ == Map::<Seq<char>, Seq<char>>::empty(),
    {
        let r = NameIndex { entries: Vec::new() };
        proof {
            assert(r.keys() =~= Seq::<Seq<char>>::empty());
            assert(r@ =~= Map::<Seq<char>, Seq<char>>::empty());
        }
        r
    }

    /// Looks a display name up, returning the joined identifier list
    /// registered under it, if any.
    pub fn lookup(&self, name: &String) -> (r: Option<&String>)
        requires
            self.wf(),
        ensures
            r is Some <==> self@.contains_key(name@),
            (r matches Some(v) ==> v@ == self@[name@]),
    {
        let mut k: usize = 0;
        while k < self.entries.len()
            invariant
                self.wf(),
                k <= self.entries.len(),
                forall|j: int| 0 <= j < k ==> self.keys()[j] != name@,
            decreases self.entries.len() - k,
        {
            if self.entries[k].0.eq(name) {
                proof {
                    assert(self.keys()[k as int] == name@);
                    assert(self.keys().contains(name@));
                    let i = choose|i: int|
                        0 <= i < self.keys().len() && self.keys()[i] == name@;
                    assert(i == k) by {
                        if i < k {
                            assert(self.keys()[i] != self.keys()[k as int]);
                        }
                        if i > k {
                            assert(self.keys()[k as int] != self.keys()[i]);
                        }
                    }
                    assert(self@[name@] == self.vals()[k as int]);
                }
                return Some(&self.entries[k].1);
            }
            k += 1;
        }
        proof {
            assert(!self.keys().contains(name@)) by {
                if self.keys().contains(name@) {
                    let j = choose|j: int|
                        0 <= j < self.keys().len() && self.keys()[j] == name@;
                    assert(self.keys()[j] != name@);
                }
            }
        }
        None
    }

    /// Registers one identifier under a display name: appended with a comma
    /// when the name is already indexed, fresh otherwise.
    pub fn add(&mut self, name: &String, id: &String)
        requires
            old(self).wf(),
        ensures
            final(self).wf(),
            final(self)@ == (if old(self)@.contains_key(name@) {
                old(self)@.insert(name@, old(self)@[name@] + ","@ + id@)
            } else {
                old(self)@.insert(name@, id@)
            }),
    {
        let ghost pre = *self;
        let mut k: usize = 0;
        while k < self.entries.len()
            invariant
                *self == pre,
                pre == *old(self),
                pre.wf(),
                k <= self.entries.len(),
                forall|j: int| 0 <= j < k ==> self.keys()[j] != name@,
            decreases self.entries.len() - k,
        {
            if self.entries[k].0.eq(name) {
                proof {
                    assert(pre.keys()[k as int] == name@);
                    assert(pre.keys().contains(name@));
                }
                let prev = self.entries.remove(k);
                let mut joined = prev.1;
                joined.append(",");
                joined.append(id.as_str());
                self.entries.push((prev.0, joined));
                proof {
                    let ghost mid_keys = pre.keys().subrange(0, k as int) + pre.keys().subrange(
                        k as int + 1,
                        pre.keys().len() as int,
                    );
                    assert(self.keys() =~= mid_keys.push(name@));
                    assert(self.vals() =~= (pre.vals().subrange(0, k as int) + pre.vals().subrange(
                        k as int + 1,
                        pre.vals().len() as int,
                    )).push(pre.vals()[k as int] + ","@ + id@));
                    assert(forall|i: int|
                        0 <= i < self.keys().len() - 1 ==> {
                            let i0 = if i < k {
                                i
                            } else {
                                i + 1
                            };
                            #[trigger] self.keys()[i] == pre.keys()[i0] && self.vals()[i]
                                == pre.vals()[i0] && 0 <= i0 < pre.keys().len()
                        });
                    assert(self.keys()[self.keys().len() - 1] == name@);
                    assert(forall|i0: int|
                        0 <= i0 < pre.keys().len() && i0 != k ==> pre.keys()[i0] != name@) by {
                        assert(forall|i0: int|
                            0 <= i0 < k ==> pre.keys()[i0] != pre.keys()[k as int]);
                        assert(forall|i0: int|
                            k < i0 < pre.keys().len() ==> pre.keys()[k as int] != pre.keys()[i0]);
                    }
                    assert(final(self).wf()) by {
                        assert(forall|i: int, j: int|
                            0 <= i < j < self.keys().len() - 1 ==> {
                                let i0 = if i < k {
                                    i
                                } else {
                                    i + 1
                                };
                                let j0 = if j < k {
                                    j
                                } else {
                                    j + 1
                                };
                                #[trigger] self.keys()[i] == pre.keys()[i0]
                                    && #[trigger] self.keys()[j] == pre.keys()[j0] && 0 <= i0 < j0
                                    < pre.keys().len()
                            });
                    }
                    assert(self@ =~= pre@.insert(name@, pre@[name@] + ","@ + id@)) by {
                        assert(pre@[name@] == pre.vals()[k as int]) by {
                            let i = choose|i: int|
                                0 <= i < pre.keys().len() && pre.keys()[i] == name@;
                            assert(i == k);
                        }
                        assert(forall|x: Seq<char>|
                            #[trigger] self.keys().contains(x) <==> (pre.keys().contains(x) || x
                                == name@)) by {
                            assert(forall|i0: int|
                                0 <= i0 < pre.keys().len() && i0 != k ==> {
                                    let i = if i0 < k {
                                        i0
                                    } else {
                                        i0 - 1
                                    };
                                    #[trigger] pre.keys()[i0] == self.keys()[i] && 0 <= i
                                        < self.keys().len()
                                });
                        }
                        assert(forall|x: Seq<char>|
                            self.keys().contains(x) ==> #[trigger] self@[x] == pre@.insert(
                                name@,
                                pre@[name@] + ","@ + id@,
                            )[x]) by {
                            assert forall|x: Seq<char>| self.keys().contains(x) implies #[trigger] self@[x]
                                == pre@.insert(name@, pre@[name@] + ","@ + id@)[x] by {
                                let i = choose|i: int|
                                    0 <= i < self.keys().len() && self.keys()[i] == x;
                                if x == name@ {
                                    assert(i == self.keys().len() - 1) by {
                                        if i < self.keys().len() - 1 {
                                            let i0 = if i < k {
                                                i
                                            } else {
                                                i + 1
                                            };
                                            assert(pre.keys()[i0] == name@ && i0 != k);
                                        }
                                    }
                                    assert(self@[x] == self.vals()[i]);
                                } else {
                                    assert(i < self.keys().len() - 1);
                                    let i0 = if i < k {
                                        i
                                    } else {
                                        i + 1
                                    };
                                    assert(self.keys()[i] == pre.keys()[i0]);
                                    assert(pre@[x] == pre.vals()[i0]) by {
                                        let ip = choose|ip: int|
                                            0 <= ip < pre.keys().len() && pre.keys()[ip] == x;
                                        assert(ip == i0) by {
                                            if ip < i0 {
                                                assert(pre.keys()[ip] != pre.keys()[i0]);
                                            }
                                            if ip > i0 {
                                                assert(pre.keys()[i0] != pre.keys()[ip]);
                                            }
                                        }
                                    }
                                    assert(self@[x] == self.vals()[i]);
                                }
                            }
                        }
                    }
                }
                return ;
            }
            k += 1;
        }
        proof {
            assert(!pre.keys().contains(name@)) by {
                if pre.keys().contains(name@) {
                    let j = choose|j: int| 0 <= j < pre.keys().len() && pre.keys()[j] == name@;
                    assert(pre.keys()[j] != name@);
                }
            }
        }
        self.entries.push((name.clone(), id.clone()));
        proof {
            assert(self.keys() =~= pre.keys().push(name@));
            assert(self.vals() =~= pre.vals().push(id@));
            assert(forall|i: int|
                0 <= i < pre.keys().len() ==> #[trigger] self.keys()[i] == pre.keys()[i]
                    && self.vals()[i] == pre.vals()[i]);
            assert(self.keys()[pre.keys().len() as int] == name@);
            assert(final(self).wf());
            assert(self@ =~= pre@.insert(name@, id@)) by {
                broadcast use vstd::seq_lib::lemma_seq_contains_after_push;

                assert(forall|x: Seq<char>|
                    #[trigger] self.keys().contains(x) <==> (pre.keys().contains(x) || x
                        == name@));
                assert forall|x: Seq<char>| self.keys().contains(x) implies #[trigger] self@[x]
                    == pre@.insert(name@, id@)[x] by {
                    let i = choose|i: int| 0 <= i < self.keys().len() && self.keys()[i] == x;
                    if x == name@ {
                        assert(i == pre.keys().len()) by {
                            if i < pre.keys().len() {
                                assert(pre.keys()[i] == name@);
                            }
                        }
                        assert(self@[x] == self.vals()[i]);
                    } else {
                        assert(i < pre.keys().len());
                        assert(pre@[x] == pre.vals()[i]) by {
                            let ip = choose|ip: int|
                                0 <= ip < pre.keys().len() && pre.keys()[ip] == x;
                            assert(ip == i) by {
                                if ip < i {
                                    assert(pre.keys()[ip] != pre.keys()[i]);
                                }
                                if ip > i {
                                    assert(pre.keys()[i] != pre.keys()[ip]);
                                }
                            }
                        }
                        assert(self@[x] == self.vals()[i]);
                    }
                }
            }
        }
    }
}

/// The catalog as the resolver consumes it: the identifier set and the
/// display-name index.
pub struct Catalog {
    pub ids: IdSet,
    pub names: NameIndex,
}

/// Builds the catalog from the rows the package listing returned. Duplicate
/// identifiers collapse into the set; duplicate display names accumulate in
/// the index.
pub fn build_catalog(entries: &Vec<CatalogEntry>) -> (r: Catalog)
    ensures
        r.ids.wf(),
        r.names.wf(),
        r.ids@ == ids_model(entries@.map_values(|e: CatalogEntry| e@)),
        r.names@ == name_index_model(entries@.map_values(|e: CatalogEntry| e@)),
{
    let ghost models = entries@.map_values(|e: CatalogEntry| e@);
    let mut ids = IdSet::new();
    let mut names = NameIndex::new();
    let mut k: usize = 0;
    proof {
        assert(models.subrange(0, 0) =~= Seq::<EntryModel>::empty());
        assert(ids@ =~= ids_model(models.subrange(0, 0))) by {
            assert(models.subrange(0, 0).map_values(|e: EntryModel| e.id)
                =~= Seq::<Seq<char>>::empty());
        }
        assert(name_index_model(models.subrange(0, 0)) =~= Map::<Seq<char>, Seq<char>>::empty());
    }
    while k < entries.len()
        invariant
            models == entries@.map_values(|e: CatalogEntry| e@),
            k <= entries.len(),
            ids.wf(),
            names.wf(),
            ids@ == ids_model(models.subrange(0, k as int)),
            names@ == name_index_model(models.subrange(0, k as int)),
        decreases entries.len() - k,
    {
        let e = &entries[k];
        ids.insert(e.id.clone());
        names.add(&e.name, &e.id);
        proof {
            let pref = models.subrange(0, k as int);
            let next = models.subrange(0, k as int + 1);
            assert(next.drop_last() =~= pref);
            assert(next.last() == models[k as int]);
            assert(models[k as int].id == e.id@ && models[k as int].name == e.name@);
            assert(ids@ =~= ids_model(next)) by {
                broadcast use vstd::seq_lib::lemma_seq_contains_after_push;

                let nids = next.map_values(|m: EntryModel| m.id);
                let pids = pref.map_values(|m: EntryModel| m.id);
                assert(nids =~= pids.push(models[k as int].id));
                assert(forall|x: Seq<char>|
                    #[trigger] nids.contains(x) <==> (pids.contains(x) || x == e.id@));
            }
            assert(names@ == name_index_model(next));
        }
        k += 1;
    }
    proof {
        assert(models.subrange(0, entries.len() as int) =~= models);
    }
    Catalog { ids, names }
}

} // verus!

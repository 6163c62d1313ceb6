//! Tables: values under names, kept in the order of the names.
use vstd::prelude::*;

use crate::text;

verus! {

/// Values under names. The entries stand in the order of their names, and no
/// name occurs twice.
#[derive(Debug, Clone, PartialEq, Eq)]
pub struct Table<T> {
    pub entries: Vec<(String, T)>,
}

/// The names of entries.
pub open spec fn names_of<T>(entries: Seq<(String, T)>) -> Seq<Seq<char>> {
    entries.map_values(|e: (String, T)| e.0@)
}

/// Whether names stand in strict order.
pub open spec fn ascending(names: Seq<Seq<char>>) -> bool {
    forall|i: int, j: int| 0 <= i < j < names.len() ==> text::before(names[i], names[j])
}

/// The value that each name stands for.
pub open spec fn contents<T: View>(entries: Seq<(String, T)>) -> Map<Seq<char>, T::V>
    decreases entries.len(),
{
    if entries.len() == 0 {
        Map::empty()
    } else {
        contents(entries.drop_last()).insert(entries.last().0@, entries.last().1@)
    }
}

impl<T: View> View for Table<T> {
    type V = Map<Seq<char>, T::V>;

    open spec fn view(&self) -> Map<Seq<char>, T::V> {
        contents(self.entries@)
    }
}

/// A name is in a table exactly where an entry has it.
pub proof fn lemma_contents_dom<T: View>(entries: Seq<(String, T)>, name: Seq<char>)
    ensures
        contents(entries).dom().contains(name) <==> exists|i: int|
            0 <= i < entries.len() && (#[trigger] entries[i]).0@ == name,
    decreases entries.len(),
{
    if entries.len() > 0 {
        let rest = entries.drop_last();
        lemma_contents_dom(rest, name);
        if contents(entries).dom().contains(name) {
            if entries.last().0@ == name {
                assert(entries[entries.len() - 1].0@ == name);
            } else {
                let i = choose|i: int| 0 <= i < rest.len() && (#[trigger] rest[i]).0@ == name;
                assert(entries[i].0@ == name);
            }
        }
        if exists|i: int| 0 <= i < entries.len() && (#[trigger] entries[i]).0@ == name {
            let i = choose|i: int| 0 <= i < entries.len() && (#[trigger] entries[i]).0@ == name;
            if i < entries.len() - 1 {
                assert(rest[i].0@ == name);
            }
        }
    }
}

/// Each entry of a table is what its name stands for.
pub proof fn lemma_contents_at<T: View>(entries: Seq<(String, T)>, i: int)
    requires
        ascending(names_of(entries)),
        0 <= i < entries.len(),
    ensures
        contents(entries).dom().contains(entries[i].0@),
        contents(entries)[entries[i].0@] == entries[i].1@,
    decreases entries.len(),
{
    let n = entries.len() - 1;
    let rest = entries.drop_last();
    if i < n {
        assert(names_of(entries)[i] == entries[i].0@);
        assert(names_of(entries)[n] == entries[n].0@);
        text::lemma_before_irreflexive(entries[i].0@);
        lemma_ascending_prefix(entries, n);
        assert(rest =~= entries.take(n));
        lemma_contents_at(rest, i);
        assert(rest[i] == entries[i]);
    }
}

proof fn lemma_ascending_prefix<T>(entries: Seq<(String, T)>, n: int)
    requires
        ascending(names_of(entries)),
        0 <= n <= entries.len(),
    ensures
        ascending(names_of(entries.take(n))),
{
    let a = names_of(entries);
    let b = names_of(entries.take(n));
    assert forall|i: int, j: int| 0 <= i < j < b.len() implies text::before(b[i], b[j]) by {
        assert(b[i] == a[i]);
        assert(b[j] == a[j]);
    }
}

/// Two entries of a table have different names.
proof fn lemma_names_distinct<T>(entries: Seq<(String, T)>, i: int, j: int)
    requires
        ascending(names_of(entries)),
        0 <= i < entries.len(),
        0 <= j < entries.len(),
        entries[i].0@ == entries[j].0@,
    ensures
        i == j,
{
    text::lemma_before_irreflexive(entries[i].0@);
    assert(names_of(entries)[i] == entries[i].0@);
    assert(names_of(entries)[j] == entries[j].0@);
}

impl<T: View> Table<T> {
    /// The names, in order.
    pub open spec fn names(self) -> Seq<Seq<char>> {
        names_of(self.entries@)
    }

    /// Whether the entries stand in the strict order of their names.
    pub open spec fn wf(self) -> bool {
        ascending(names_of(self.entries@))
    }

    /// An empty table.
    pub fn new() -> (r: Self)
        ensures
            r.wf(),
            r@ == Map::<Seq<char>, T::V>::empty(),
            r.entries@.len() == 0,
    {
        Table { entries: Vec::new() }
    }

    /// The number of entries.
    pub fn len(&self) -> (r: usize)
        ensures
            r == self.entries@.len(),
    {
        self.entries.len()
    }

    /// Whether there is no entry.
    pub fn is_empty(&self) -> (r: bool)
        ensures
            r == (self.entries@.len() == 0),
    {
        self.entries.len() == 0
    }

    /// The number of entries whose name comes before the given one.
    fn place(&self, name: &str) -> (k: usize)
        requires
            self.wf(),
        ensures
            k <= self.entries@.len(),
            forall|i: int| 0 <= i < k ==> text::before((#[trigger] self.entries@[i]).0@, name@),
            forall|i: int|
                k < i < self.entries@.len() ==> text::before(
                    name@,
                    (#[trigger] self.entries@[i]).0@,
                ),
            k < self.entries@.len() ==> self.entries@[k as int].0@ == name@ || text::before(
                name@,
                self.entries@[k as int].0@,
            ),
    {
        let mut k: usize = 0;
        while k < self.entries.len() && text::is_before(self.entries[k].0.as_str(), name)
            invariant
                k <= self.entries.len(),
                forall|i: int|
                    0 <= i < k ==> text::before((#[trigger] self.entries@[i]).0@, name@),
            decreases self.entries.len() - k,
        {
            k = k + 1;
        }
        proof {
            if k < self.entries.len() {
                let at = self.entries@[k as int].0@;
                text::lemma_before_total(at, name@);
                assert forall|i: int| k < i < self.entries@.len() implies text::before(
                    name@,
                    (#[trigger] self.entries@[i]).0@,
                ) by {
                    assert(text::before(
                        names_of(self.entries@)[k as int],
                        names_of(self.entries@)[i],
                    ));
                    if at != name@ {
                        text::lemma_before_transitive(name@, at, self.entries@[i].0@);
                    }
                }
            }
        }
        k
    }

    /// The value under a name.
    pub fn get(&self, name: &str) -> (r: Option<&T>)
        requires
            self.wf(),
        ensures
            match r {
                Some(v) => self@.dom().contains(name@) && self@[name@] == v@,
                None => !self@.dom().contains(name@),
            },
    {
        let k: usize = self.place(name);
        proof {
            lemma_contents_dom(self.entries@, name@);
            text::lemma_before_irreflexive(name@);
        }
        if k < self.entries.len() && text::str_eq(self.entries[k].0.as_str(), name) {
            proof {
                lemma_contents_at(self.entries@, k as int);
            }
            Some(&self.entries[k].1)
        } else {
            None
        }
    }

    /// Whether there is a value under a name.
    pub fn contains_key(&self, name: &str) -> (r: bool)
        requires
            self.wf(),
        ensures
            r == self@.dom().contains(name@),
    {
        self.get(name).is_some()
    }

    /// Puts a value under a name, in place of the one that was there.
    pub fn insert(&mut self, name: String, value: T)
        requires
            old(self).wf(),
        ensures
            final(self).wf(),
            final(self)@ == old(self)@.insert(name@, value@),
    {
        let k: usize = self.place(name.as_str());
        let ghost e0 = self.entries@;
        let ghost m0 = self@;
        if k < self.entries.len() && text::str_eq(self.entries[k].0.as_str(), name.as_str()) {
            self.entries.remove(k);
        }
        let ghost e1 = self.entries@;
        self.entries.insert(k, (name, value));
        proof {
            let e2 = self.entries@;
            let hit = e1.len() < e0.len();
            text::lemma_before_irreflexive(name@);
            assert forall|i: int| 0 <= i < e2.len() && i != k implies #[trigger] e2[i] == e0[if i
                < k || hit {
                i
            } else {
                i - 1
            }] by {}
            let n2 = names_of(e2);
            assert forall|i: int, j: int| 0 <= i < j < n2.len() implies text::before(
                n2[i],
                n2[j],
            ) by {
                let oi = if i < k || hit {
                    i
                } else {
                    i - 1
                };
                let oj = if j < k || hit {
                    j
                } else {
                    j - 1
                };
                if i != k {
                    assert(n2[i] == names_of(e0)[oi]);
                    assert(n2[i] == e0[oi].0@);
                }
                if j != k {
                    assert(n2[j] == names_of(e0)[oj]);
                    assert(n2[j] == e0[oj].0@);
                }
            }
            let m2 = m0.insert(name@, value@);
            assert forall|x: Seq<char>| #[trigger] contents(e2).dom().contains(x)
                == m2.dom().contains(x) by {
                lemma_contents_dom(e2, x);
                lemma_contents_dom(e0, x);
                if contents(e2).dom().contains(x) && x != name@ {
                    let i = choose|i: int| 0 <= i < e2.len() && (#[trigger] e2[i]).0@ == x;
                    let oi = if i < k || hit {
                        i
                    } else {
                        i - 1
                    };
                    assert(e0[oi].0@ == x);
                }
                if m2.dom().contains(x) {
                    if x == name@ {
                        assert(e2[k as int].0@ == x);
                    } else {
                        let i = choose|i: int| 0 <= i < e0.len() && (#[trigger] e0[i]).0@ == x;
                        let ni = if i < k || hit {
                            i
                        } else {
                            i + 1
                        };
                        assert(e2[ni] == e0[i]);
                        assert(e2[ni].0@ == x);
                    }
                }
            }
            assert forall|x: Seq<char>| contents(e2).dom().contains(x) implies #[trigger] contents(
                e2,
            )[x] == m2[x] by {
                lemma_contents_dom(e2, x);
                let i = choose|i: int| 0 <= i < e2.len() && (#[trigger] e2[i]).0@ == x;
                lemma_contents_at(e2, i);
                if i != k {
                    let oi = if i < k || hit {
                        i
                    } else {
                        i - 1
                    };
                    assert(e2[i] == e0[oi]);
                    lemma_contents_at(e0, oi);
                    if x == name@ {
                        lemma_names_distinct(e2, i, k as int);
                    }
                }
            }
            assert(contents(e2) =~= m2);
        }
    }

    /// Takes the value under a name out of the table.
    pub fn remove(&mut self, name: &str) -> (r: Option<T>)
        requires
            old(self).wf(),
        ensures
            final(self).wf(),
            final(self)@ == old(self)@.remove(name@),
            match r {
                Some(v) => old(self)@.dom().contains(name@) && old(self)@[name@] == v@,
                None => !old(self)@.dom().contains(name@),
            },
    {
        let k: usize = self.place(name);
        let ghost e0 = self.entries@;
        let ghost m0 = self@;
        proof {
            lemma_contents_dom(e0, name@);
            text::lemma_before_irreflexive(name@);
        }
        if k < self.entries.len() && text::str_eq(self.entries[k].0.as_str(), name) {
            let e = self.entries.remove(k);
            proof {
                let e1 = self.entries@;
                lemma_contents_at(e0, k as int);
                assert forall|i: int| 0 <= i < e1.len() implies #[trigger] e1[i] == e0[if i < k {
                    i
                } else {
                    i + 1
                }] by {}
                let n1 = names_of(e1);
                assert forall|i: int, j: int| 0 <= i < j < n1.len() implies text::before(
                    n1[i],
                    n1[j],
                ) by {
                    let oi = if i < k {
                        i
                    } else {
                        i + 1
                    };
                    let oj = if j < k {
                        j
                    } else {
                        j + 1
                    };
                    assert(n1[i] == names_of(e0)[oi]);
                    assert(n1[j] == names_of(e0)[oj]);
                }
                let m1 = m0.remove(name@);
                assert forall|x: Seq<char>| #[trigger] contents(e1).dom().contains(x)
                    == m1.dom().contains(x) by {
                    lemma_contents_dom(e1, x);
                    lemma_contents_dom(e0, x);
                    if contents(e1).dom().contains(x) {
                        let i = choose|i: int| 0 <= i < e1.len() && (#[trigger] e1[i]).0@ == x;
                        let oi = if i < k {
                            i
                        } else {
                            i + 1
                        };
                        assert(e0[oi].0@ == x);
                        if x == name@ {
                            lemma_names_distinct(e0, oi, k as int);
                        }
                    }
                    if m1.dom().contains(x) {
                        let i = choose|i: int| 0 <= i < e0.len() && (#[trigger] e0[i]).0@ == x;
                        let ni = if i < k {
                            i
                        } else {
                            i - 1
                        };
                        assert(i != k);
                        assert(e1[ni] == e0[i]);
                        assert(e1[ni].0@ == x);
                    }
                }
                assert forall|x: Seq<char>| contents(e1).dom().contains(
                    x,
                ) implies #[trigger] contents(e1)[x] == m1[x] by {
                    lemma_contents_dom(e1, x);
                    let i = choose|i: int| 0 <= i < e1.len() && (#[trigger] e1[i]).0@ == x;
                    let oi = if i < k {
                        i
                    } else {
                        i + 1
                    };
                    lemma_contents_at(e1, i);
                    lemma_contents_at(e0, oi);
                }
                assert(contents(e1) =~= m1);
            }
            Some(e.1)
        } else {
            proof {
                assert(!m0.dom().contains(name@));
                assert(m0.remove(name@) =~= m0);
            }
            None
        }
    }
}

} // verus!

use vstd::prelude::*;

verus! {

// ---------------------------------------------------------------------------
// Association sequences: the mathematical model of a directory's contents.
//
// A directory is modelled as a sequence of (name, value) entries. Lookup
// returns the value of the first entry with the given name; a well-formed
// directory has pairwise distinct names, as the file system guarantees.
// ---------------------------------------------------------------------------

/// The value bound to `name`, if any: the first entry whose name matches.
pub open spec fn assoc_find<V>(entries: Seq<(Seq<char>, V)>, name: Seq<char>) -> Option<V>
    decreases entries.len(),
{
    if entries.len() == 0 {
        None
    } else if entries[0].0 == name {
        Some(entries[0].1)
    } else {
        assoc_find(entries.drop_first(), name)
    }
}

/// All entry names are pairwise distinct.
pub open spec fn names_unique<V>(entries: Seq<(Seq<char>, V)>) -> bool {
    forall|i: int, j: int| 0 <= i < j < entries.len() ==> entries[i].0 != entries[j].0
}

/// Lookup finds the value stored at the first entry carrying `name`.
pub proof fn lemma_find_first<V>(entries: Seq<(Seq<char>, V)>, name: Seq<char>, i: int)
    requires
        0 <= i < entries.len(),
        entries[i].0 == name,
        forall|j: int| 0 <= j < i ==> entries[j].0 != name,
    ensures
        assoc_find(entries, name) == Some(entries[i].1),
    decreases i,
{
    if i > 0 {
        assert(entries[0].0 != name);
        assert(entries.drop_first()[i - 1] == entries[i]);
        assert forall|j: int| 0 <= j < i - 1 implies entries.drop_first()[j].0 != name by {
            assert(entries.drop_first()[j] == entries[j + 1]);
        }
        lemma_find_first(entries.drop_first(), name, i - 1);
    }
}

/// Lookup fails exactly when no entry carries `name`.
pub proof fn lemma_find_absent<V>(entries: Seq<(Seq<char>, V)>, name: Seq<char>)
    ensures
        (assoc_find(entries, name) is None) <==> (forall|j: int|
            0 <= j < entries.len() ==> entries[j].0 != name),
    decreases entries.len(),
{
    if entries.len() > 0 && entries[0].0 != name {
        lemma_find_absent(entries.drop_first(), name);
        if assoc_find(entries, name) is None {
            assert forall|j: int| 0 <= j < entries.len() implies entries[j].0 != name by {
                if j > 0 {
                    assert(entries.drop_first()[j - 1] == entries[j]);
                }
            }
        }
        if forall|j: int| 0 <= j < entries.len() ==> entries[j].0 != name {
            assert forall|j: int|
                0 <= j < entries.drop_first().len() implies entries.drop_first()[j].0 != name by {
                assert(entries.drop_first()[j] == entries[j + 1]);
            }
        }
    }
}

/// How appending one entry changes every lookup.
pub proof fn lemma_find_push<V>(entries: Seq<(Seq<char>, V)>, e: (Seq<char>, V), m: Seq<char>)
    ensures
        assoc_find(entries.push(e), m) == (if assoc_find(entries, m) is Some {
            assoc_find(entries, m)
        } else if e.0 == m {
            Some(e.1)
        } else {
            None::<V>
        }),
    decreases entries.len(),
{
    if entries.len() == 0 {
        assert(entries.push(e)[0] == e);
        assert(entries.push(e).drop_first() =~= Seq::<(Seq<char>, V)>::empty());
    } else {
        assert(entries.push(e)[0] == entries[0]);
        assert(entries.push(e).drop_first() =~= entries.drop_first().push(e));
        lemma_find_push(entries.drop_first(), e, m);
    }
}

/// Distinct names survive dropping the first entry.
pub proof fn lemma_unique_drop_first<V>(entries: Seq<(Seq<char>, V)>)
    requires
        entries.len() > 0,
        names_unique(entries),
    ensures
        names_unique(entries.drop_first()),
{
    assert forall|a: int, b: int|
        0 <= a < b < entries.drop_first().len() implies entries.drop_first()[a].0
        != entries.drop_first()[b].0 by {
        assert(entries.drop_first()[a] == entries[a + 1]);
        assert(entries.drop_first()[b] == entries[b + 1]);
    }
}

/// How removing the entry at index `i` changes every lookup.
pub proof fn lemma_find_remove<V>(entries: Seq<(Seq<char>, V)>, i: int, m: Seq<char>)
    requires
        names_unique(entries),
        0 <= i < entries.len(),
    ensures
        assoc_find(entries.remove(i), m) == (if entries[i].0 == m {
            None::<V>
        } else {
            assoc_find(entries, m)
        }),
    decreases entries.len(),
{
    if i == 0 {
        assert(entries.remove(0) =~= entries.drop_first());
        if entries[0].0 == m {
            assert forall|j: int|
                0 <= j < entries.drop_first().len() implies entries.drop_first()[j].0 != m by {
                assert(entries.drop_first()[j] == entries[j + 1]);
                assert(entries[0].0 != entries[j + 1].0);
            }
            lemma_find_absent(entries.drop_first(), m);
        }
    } else {
        assert(entries.remove(i)[0] == entries[0]);
        if entries[0].0 == m {
            assert(entries[i].0 != m);
            assert(assoc_find(entries.remove(i), m) == Some(entries.remove(i)[0].1));
            assert(assoc_find(entries, m) == Some(entries[0].1));
        } else {
            assert(entries.remove(i).drop_first() =~= entries.drop_first().remove(i - 1));
            assert(entries.drop_first()[i - 1] == entries[i]);
            lemma_unique_drop_first(entries);
            lemma_find_remove(entries.drop_first(), i - 1, m);
        }
    }
}

/// Distinct names survive removing one entry.
pub proof fn lemma_unique_remove<V>(entries: Seq<(Seq<char>, V)>, i: int)
    requires
        names_unique(entries),
        0 <= i < entries.len(),
    ensures
        names_unique(entries.remove(i)),
{
    assert forall|a: int, b: int|
        0 <= a < b < entries.remove(i).len() implies entries.remove(i)[a].0 != entries.remove(
        i,
    )[b].0 by {
        let a2: int = if a < i {
            a
        } else {
            a + 1
        };
        let b2: int = if b < i {
            b
        } else {
            b + 1
        };
        assert(entries.remove(i)[a] == entries[a2]);
        assert(entries.remove(i)[b] == entries[b2]);
    }
}

/// How overwriting the value at index `i` (keeping its name) changes lookups.
pub proof fn lemma_find_update<V>(entries: Seq<(Seq<char>, V)>, i: int, v: V, m: Seq<char>)
    requires
        names_unique(entries),
        0 <= i < entries.len(),
    ensures
        assoc_find(entries.update(i, (entries[i].0, v)), m) == (if entries[i].0 == m {
            Some(v)
        } else {
            assoc_find(entries, m)
        }),
    decreases entries.len(),
{
    let upd = entries.update(i, (entries[i].0, v));
    if i == 0 {
        assert(upd[0] == (entries[0].0, v));
        if entries[0].0 != m {
            assert(upd.drop_first() =~= entries.drop_first());
        }
    } else {
        assert(upd[0] == entries[0]);
        if entries[0].0 == m {
            assert(entries[i].0 != m);
        } else {
            lemma_unique_drop_first(entries);
            assert(entries.drop_first()[i - 1] == entries[i]);
            assert(upd.drop_first() =~= entries.drop_first().update(
                i - 1,
                (entries.drop_first()[i - 1].0, v),
            ));
            lemma_find_update(entries.drop_first(), i - 1, v, m);
        }
    }
}

/// Distinct names survive overwriting a value in place.
pub proof fn lemma_unique_update<V>(entries: Seq<(Seq<char>, V)>, i: int, v: V)
    requires
        names_unique(entries),
        0 <= i < entries.len(),
    ensures
        names_unique(entries.update(i, (entries[i].0, v))),
{
    let upd = entries.update(i, (entries[i].0, v));
    assert forall|a: int, b: int| 0 <= a < b < upd.len() implies upd[a].0 != upd[b].0 by {
        assert(upd[a].0 == entries[a].0);
        assert(upd[b].0 == entries[b].0);
    }
}

/// Distinct names survive appending an entry with a fresh name.
pub proof fn lemma_unique_push<V>(entries: Seq<(Seq<char>, V)>, e: (Seq<char>, V))
    requires
        names_unique(entries),
        forall|j: int| 0 <= j < entries.len() ==> entries[j].0 != e.0,
    ensures
        names_unique(entries.push(e)),
{
    assert forall|a: int, b: int|
        0 <= a < b < entries.push(e).len() implies entries.push(e)[a].0 != entries.push(e)[b].0 by {
        if b < entries.len() {
            assert(entries.push(e)[a] == entries[a]);
            assert(entries.push(e)[b] == entries[b]);
        } else {
            assert(entries.push(e)[a] == entries[a]);
            assert(entries.push(e)[b] == e);
        }
    }
}

// ---------------------------------------------------------------------------
// The executable directory model.
// ---------------------------------------------------------------------------

/// One directory of the on-disk model: the files it holds, each a name with
/// its byte contents. Names are unique, as they are on a real file system.
pub struct Directory {
    files: Vec<(String, Vec<u8>)>,
}

/// The mathematical contents of a stored file list.
pub open spec fn dir_view(files: Seq<(String, Vec<u8>)>) -> Seq<(Seq<char>, Seq<u8>)> {
    Seq::new(files.len(), |i: int| (files[i].0@, files[i].1@))
}

impl View for Directory {
    type V = Seq<(Seq<char>, Seq<u8>)>;

    closed spec fn view(&self) -> Seq<(Seq<char>, Seq<u8>)> {
        dir_view(self.files@)
    }
}

/// Byte-for-byte copy of a file's contents.
fn clone_bytes(v: &Vec<u8>) -> (r: Vec<u8>)
    ensures
        r@ == v@,
{
    let mut r: Vec<u8> = Vec::new();
    let n = v.len();
    let mut i: usize = 0;
    while i < n
        invariant
            i <= n,
            n == v@.len(),
            r@ =~= v@.subrange(0, i as int),
        decreases n - i,
    {
        r.push(v[i]);
        proof {
            assert(r@ =~= v@.subrange(0, i + 1 as int));
        }
        i += 1;
    }
    proof {
        assert(r@ =~= v@);
    }
    r
}

impl Directory {
    /// Names are pairwise distinct, as the file system guarantees.
    pub open spec fn wf(self) -> bool {
        names_unique(self@)
    }

    /// An empty directory.
    pub fn new() -> (d: Directory)
        ensures
            d.wf(),
            d@ == Seq::<(Seq<char>, Seq<u8>)>::empty(),
    {
        let d = Directory { files: Vec::new() };
        proof {
            assert(d@ =~= Seq::<(Seq<char>, Seq<u8>)>::empty());
        }
        d
    }

    /// Position of the first entry named `name`, if any.
    fn find_index(&self, name: &str) -> (r: Option<usize>)
        ensures
            match r {
                Some(i) => i < self@.len() && self@[i as int].0 == name@ && (forall|j: int|
                    0 <= j < i ==> self@[j].0 != name@),
                None => forall|j: int| 0 <= j < self@.len() ==> self@[j].0 != name@,
            },
    {
        let key: String = name.to_owned();
        let n = self.files.len();
        let mut i: usize = 0;
        while i < n
            invariant
                i <= n,
                n == self@.len(),
                key@ == name@,
                forall|j: int| 0 <= j < i ==> self@[j].0 != name@,
            decreases n - i,
        {
            if self.files[i].0 == key {
                return Some(i);
            }
            i += 1;
        }
        None
    }

    /// The contents of file `name`, if it is present.
    pub fn read_file(&self, name: &str) -> (r: Option<Vec<u8>>)
        ensures
            match r {
                Some(c) => assoc_find(self@, name@) == Some(c@),
                None => assoc_find(self@, name@) is None,
            },
    {
        match self.find_index(name) {
            Some(i) => {
                proof {
                    lemma_find_first(self@, name@, i as int);
                }
                Some(clone_bytes(&self.files[i].1))
            },
            None => {
                proof {
                    lemma_find_absent(self@, name@);
                }
                None
            },
        }
    }

    /// Delete file `name`; a missing file is left missing.
    pub fn remove_file(&mut self, name: &str)
        requires
            old(self).wf(),
        ensures
            final(self).wf(),
            assoc_find(final(self)@, name@) is None,
            forall|m: Seq<char>| m != name@ ==> assoc_find(final(self)@, m) == assoc_find(
                old(self)@,
                m,
            ),
    {
        match self.find_index(name) {
            Some(i) => {
                let ghost pre = self@;
                proof {
                    lemma_unique_remove(pre, i as int);
                    assert forall|m: Seq<char>| true implies assoc_find(pre.remove(i as int), m)
                        == (if pre[i as int].0 == m {
                        None::<Seq<u8>>
                    } else {
                        assoc_find(pre, m)
                    }) by {
                        lemma_find_remove(pre, i as int, m);
                    }
                }
                self.files.remove(i);
                proof {
                    assert(self@ =~= pre.remove(i as int));
                }
            },
            None => {
                proof {
                    lemma_find_absent(self@, name@);
                }
            },
        }
    }

    /// Write `contents` to file `name`, creating it or overwriting it whole.
    pub fn write_file(&mut self, name: &str, contents: Vec<u8>)
        requires
            old(self).wf(),
        ensures
            final(self).wf(),
            assoc_find(final(self)@, name@) == Some(contents@),
            forall|m: Seq<char>| m != name@ ==> assoc_find(final(self)@, m) == assoc_find(
                old(self)@,
                m,
            ),
    {
        self.remove_file(name);
        let ghost mid = self@;
        let ghost entry = (name@, contents@);
        proof {
            lemma_find_absent(mid, name@);
            lemma_unique_push(mid, entry);
            assert forall|m: Seq<char>| true implies assoc_find(mid.push(entry), m) == (if
            assoc_find(mid, m) is Some {
                assoc_find(mid, m)
            } else if name@ == m {
                Some(contents@)
            } else {
                None::<Seq<u8>>
            }) by {
                lemma_find_push(mid, entry, m);
            }
        }
        let key: String = name.to_owned();
        self.files.push((key, contents));
        proof {
            assert(self@ =~= mid.push(entry));
        }
    }
}

} // verus!

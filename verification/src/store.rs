use vstd::prelude::*;

use crate::types::ObjectId;

verus! {

/// Clones a byte vector; the clone holds exactly the same bytes.
pub fn clone_bytes(v: &Vec<u8>) -> (r: Vec<u8>)
    ensures
        r@ == v@,
{
    let r = v.clone();
    proof {
        assert forall|i: int| 0 <= i < v@.len() implies r@[i] == v@[i] by {
            assert(cloned::<u8>(v@[i], r@[i]));
        }
        assert(r@ =~= v@);
    }
    r
}

/// Relies on std's String::push: appends the given character to the end of
/// the string.
#[verifier::external_body]
pub(crate) fn push_char(s: &mut String, c: char)
    ensures
        final(s)@ == old(s)@.push(c),
{
    s.push(c);
}

/// The byte sequences a list of byte vectors holds.
pub open spec fn byte_lists_view(v: Seq<Vec<u8>>) -> Seq<Seq<u8>> {
    Seq::new(v.len(), |i: int| v[i]@)
}

/// Clones a list of byte vectors; the clone holds the same byte sequences.
pub fn clone_byte_lists(v: &Vec<Vec<u8>>) -> (r: Vec<Vec<u8>>)
    ensures
        byte_lists_view(r@) == byte_lists_view(v@),
{
    let mut r: Vec<Vec<u8>> = Vec::new();
    let mut i: usize = 0;
    while i < v.len()
        invariant
            i <= v@.len(),
            r@.len() == i,
            byte_lists_view(r@) == byte_lists_view(v@).take(i as int),
        decreases v@.len() - i,
    {
        let ghost pre = r@;
        let ghost pre_deep = byte_lists_view(r@);
        r.push(clone_bytes(&v[i]));
        i = i + 1;
        proof {
            assert forall|j: int| 0 <= j < r@.len() implies byte_lists_view(r@)[j]
                == byte_lists_view(v@).take(i as int)[j] by {
                assert(byte_lists_view(r@)[j] == r@[j]@);
                assert(byte_lists_view(v@).take(i as int)[j] == byte_lists_view(v@)[j]);
                assert(byte_lists_view(v@)[j] == v@[j]@);
                if j < pre.len() {
                    assert(r@[j] == pre[j]);
                    assert(pre_deep[j] == pre[j]@);
                }
            }
            assert(byte_lists_view(r@) =~= byte_lists_view(v@).take(i as int));
        }
    }
    proof {
        assert(byte_lists_view(v@).take(v@.len() as int) =~= byte_lists_view(v@));
    }
    r
}

/// The value the store holds under `k`: the last entry with that id wins, so
/// appending an entry is how both fresh inserts and overwrites happen.
pub open spec fn id_lookup(s: Seq<(ObjectId, Vec<u8>)>, k: ObjectId) -> Option<Seq<u8>>
    decreases s.len(),
{
    if s.len() == 0 {
        None
    } else if s.last().0 == k {
        Some(s.last().1@)
    } else {
        id_lookup(s.drop_last(), k)
    }
}

/// The bytes `id_lookup` finds, empty when it finds none.
pub open spec fn id_lookup_val(s: Seq<(ObjectId, Vec<u8>)>, k: ObjectId) -> Seq<u8> {
    match id_lookup(s, k) {
        Some(v) => v,
        None => Seq::empty(),
    }
}

/// In-memory map from object id to bytes, backing one object class of the
/// in-memory store. Entries are appended; the newest entry for an id is the
/// one that counts.
pub struct IdStore {
    entries: Vec<(ObjectId, Vec<u8>)>,
}

impl IdStore {
    /// The mapping the store currently represents.
    pub closed spec fn as_map(&self) -> Map<ObjectId, Seq<u8>> {
        Map::new(
            |k: ObjectId| id_lookup(self.entries@, k) is Some,
            |k: ObjectId| id_lookup_val(self.entries@, k),
        )
    }

    pub fn new() -> (r: IdStore)
        ensures
            r.as_map() == Map::<ObjectId, Seq<u8>>::empty(),
    {
        let r = IdStore { entries: Vec::new() };
        proof {
            assert(r.as_map() =~= Map::<ObjectId, Seq<u8>>::empty());
        }
        r
    }

    pub fn get(&self, key: &ObjectId) -> (r: Option<Vec<u8>>)
        ensures
            match r {
                Some(v) => self.as_map().contains_key(*key) && v@ == self.as_map()[*key],
                None => !self.as_map().contains_key(*key),
            },
    {
        let mut i: usize = self.entries.len();
        proof {
            assert(self.entries@.take(i as int) =~= self.entries@);
        }
        while i > 0
            invariant
                i <= self.entries@.len(),
                id_lookup(self.entries@, *key) == id_lookup(self.entries@.take(i as int), *key),
            decreases i,
        {
            i = i - 1;
            proof {
                let t = self.entries@.take(i as int + 1);
                assert(t.last() == self.entries@[i as int]);
                assert(t.drop_last() =~= self.entries@.take(i as int));
            }
            let e = &self.entries[i];
            if e.0 == *key {
                return Some(clone_bytes(&e.1));
            }
        }
        proof {
            assert(self.entries@.take(0) =~= Seq::<(ObjectId, Vec<u8>)>::empty());
        }
        None
    }

    pub fn put(&mut self, key: ObjectId, value: &Vec<u8>)
        ensures
            final(self).as_map() == old(self).as_map().insert(key, value@),
    {
        self.entries.push((key, clone_bytes(value)));
        proof {
            assert(self.entries@.drop_last() =~= old(self).entries@);
            assert forall|k: ObjectId| #[trigger] id_lookup(self.entries@, k) == (if k == key {
                Some(value@)
            } else {
                id_lookup(old(self).entries@, k)
            }) by {
                assert(self.entries@.last().1@ == value@);
            }
            assert(final(self).as_map() =~= old(self).as_map().insert(key, value@));
        }
    }
}

/// The version history the ref store holds under name `n`: the last entry
/// with that name wins.
pub open spec fn ref_lookup(s: Seq<(String, Vec<Vec<u8>>)>, n: Seq<char>) -> Option<Seq<Seq<u8>>>
    decreases s.len(),
{
    if s.len() == 0 {
        None
    } else if s.last().0@ == n {
        Some(byte_lists_view(s.last().1@))
    } else {
        ref_lookup(s.drop_last(), n)
    }
}

/// The history `ref_lookup` finds, empty when it finds none.
pub open spec fn ref_lookup_val(s: Seq<(String, Vec<Vec<u8>>)>, n: Seq<char>) -> Seq<Seq<u8>> {
    match ref_lookup(s, n) {
        Some(v) => v,
        None => Seq::empty(),
    }
}

/// A name is found exactly when some entry carries it.
pub proof fn lemma_ref_lookup_exists(s: Seq<(String, Vec<Vec<u8>>)>, n: Seq<char>)
    ensures
        (ref_lookup(s, n) is Some) <==> exists|j: int| 0 <= j < s.len() && s[j].0@ == n,
    decreases s.len(),
{
    if s.len() > 0 {
        lemma_ref_lookup_exists(s.drop_last(), n);
        assert(s.drop_last() =~= s.take(s.len() - 1));
        if s.last().0@ == n {
            assert(s[s.len() - 1].0@ == n);
        } else {
            if exists|j: int| 0 <= j < s.len() && s[j].0@ == n {
                let j = choose|j: int| 0 <= j < s.len() && s[j].0@ == n;
                assert(j < s.len() - 1);
                assert(s.drop_last()[j].0@ == n);
            }
            if ref_lookup(s, n) is Some {
                let j = choose|j: int| 0 <= j < s.drop_last().len() && s.drop_last()[j].0@ == n;
                assert(s[j].0@ == n);
            }
        }
    }
}

/// In-memory map from ref name to version history, backing the refs of the
/// in-memory store. Entries are appended; the newest entry for a name is the
/// one that counts.
pub struct RefStore {
    entries: Vec<(String, Vec<Vec<u8>>)>,
}

impl RefStore {
    /// The mapping the store currently represents.
    pub closed spec fn as_map(&self) -> Map<Seq<char>, Seq<Seq<u8>>> {
        Map::new(
            |n: Seq<char>| ref_lookup(self.entries@, n) is Some,
            |n: Seq<char>| ref_lookup_val(self.entries@, n),
        )
    }

    pub fn new() -> (r: RefStore)
        ensures
            r.as_map() == Map::<Seq<char>, Seq<Seq<u8>>>::empty(),
    {
        let r = RefStore { entries: Vec::new() };
        proof {
            assert(r.as_map() =~= Map::<Seq<char>, Seq<Seq<u8>>>::empty());
        }
        r
    }

    pub fn find(&self, name: &String) -> (r: Option<Vec<Vec<u8>>>)
        ensures
            match r {
                Some(l) => self.as_map().contains_key(name@) && byte_lists_view(l@)
                    == self.as_map()[name@],
                None => !self.as_map().contains_key(name@),
            },
    {
        let mut i: usize = self.entries.len();
        proof {
            assert(self.entries@.take(i as int) =~= self.entries@);
        }
        while i > 0
            invariant
                i <= self.entries@.len(),
                ref_lookup(self.entries@, name@) == ref_lookup(
                    self.entries@.take(i as int),
                    name@,
                ),
            decreases i,
        {
            i = i - 1;
            proof {
                let t = self.entries@.take(i as int + 1);
                assert(t.last() == self.entries@[i as int]);
                assert(t.drop_last() =~= self.entries@.take(i as int));
            }
            let e = &self.entries[i];
            if e.0 == *name {
                return Some(clone_byte_lists(&e.1));
            }
        }
        proof {
            assert(self.entries@.take(0) =~= Seq::<(String, Vec<Vec<u8>>)>::empty());
        }
        None
    }

    pub fn append(&mut self, name: &String, value: &Vec<u8>)
        ensures
            final(self).as_map() == old(self).as_map().insert(
                name@,
                crate::storage::ref_history(old(self).as_map(), name@).push(value@),
            ),
    {
        let ghost hist = crate::storage::ref_history(old(self).as_map(), name@);
        let mut list = match self.find(name) {
            Some(l) => l,
            None => Vec::new(),
        };
        let ghost pre_list = list@;
        list.push(clone_bytes(value));
        proof {
            assert forall|j: int| 0 <= j < list@.len() implies byte_lists_view(list@)[j]
                == hist.push(value@)[j] by {
                if j < pre_list.len() {
                    assert(list@[j] == pre_list[j]);
                    assert(byte_lists_view(pre_list)[j] == pre_list[j]@);
                }
            }
            assert(byte_lists_view(list@) =~= hist.push(value@));
        }
        self.entries.push((name.clone(), list));
        proof {
            assert(self.entries@.drop_last() =~= old(self).entries@);
            assert forall|n: Seq<char>| #[trigger] ref_lookup(self.entries@, n) == (if n == name@ {
                Some(hist.push(value@))
            } else {
                ref_lookup(old(self).entries@, n)
            }) by {
                assert(self.entries@.last().0@ == name@);
            }
            assert(final(self).as_map() =~= old(self).as_map().insert(
                name@,
                hist.push(value@),
            ));
        }
    }

    pub fn names(&self) -> (r: Vec<String>)
        ensures
            forall|i: int| 0 <= i < r@.len() ==> self.as_map().dom().contains(#[trigger] r@[i]@),
            forall|n: Seq<char>| #[trigger] self.as_map().dom().contains(n)
                ==> crate::storage::names_contain(r@, n),
    {
        let mut out: Vec<String> = Vec::new();
        let mut i: usize = 0;
        while i < self.entries.len()
            invariant
                i <= self.entries@.len(),
                forall|j: int| 0 <= j < out@.len() ==> exists|j2: int|
                    0 <= j2 < self.entries@.len() && self.entries@[j2].0@ == #[trigger] out@[j]@,
                forall|j2: int| 0 <= j2 < i ==> exists|j: int|
                    0 <= j < out@.len() && out@[j]@ == #[trigger] self.entries@[j2].0@,
            decreases self.entries@.len() - i,
        {
            let name = &self.entries[i].0;
            if !contains_string(&out, name) {
                let ghost pre_out = out@;
                out.push(name.clone());
                proof {
                    assert(out@[out@.len() - 1]@ == self.entries@[i as int].0@);
                    assert forall|j: int| 0 <= j < pre_out.len() implies out@[j] == pre_out[j]
                        by {}
                }
            }
            i = i + 1;
        }
        proof {
            assert forall|j: int| 0 <= j < out@.len() implies self.as_map().dom().contains(
                out@[j]@,
            ) by {
                lemma_ref_lookup_exists(self.entries@, out@[j]@);
            }
            assert forall|n: Seq<char>| self.as_map().dom().contains(n) implies
                crate::storage::names_contain(out@, n) by {
                lemma_ref_lookup_exists(self.entries@, n);
                let j2 = choose|j2: int|
                    0 <= j2 < self.entries@.len() && self.entries@[j2].0@ == n;
                assert(exists|j: int| 0 <= j < out@.len() && out@[j]@ == self.entries@[j2].0@);
            }
        }
        out
    }
}

/// Whether some element of `v` holds exactly the characters of `s`.
pub fn contains_string(v: &Vec<String>, s: &String) -> (r: bool)
    ensures
        r == exists|j: int| 0 <= j < v@.len() && v@[j]@ == s@,
{
    let mut i: usize = 0;
    while i < v.len()
        invariant
            i <= v@.len(),
            forall|j: int| 0 <= j < i ==> v@[j]@ != s@,
        decreases v@.len() - i,
    {
        if v[i] == *s {
            return true;
        }
        i = i + 1;
    }
    false
}

} // verus!

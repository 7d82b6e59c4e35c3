//! A map built once and read many times, and the hasher of digest keys.
use vstd::prelude::*;

verus! {

/// Below this many entries a scan beats a binary search.
pub const SCAN_BELOW: usize = 16;

/// The map of a list of entries, a later entry for a key replacing an
/// earlier one.
pub open spec fn entries_map<V>(s: Seq<(u64, V)>) -> Map<u64, V>
    decreases s.len(),
{
    if s.len() == 0 {
        Map::empty()
    } else {
        entries_map(s.drop_last()).insert(s.last().0, s.last().1)
    }
}

pub open spec fn strictly_sorted<V>(s: Seq<(u64, V)>) -> bool {
    forall|i: int, j: int| 0 <= i < j < s.len() ==> s[i].0 < s[j].0
}

/// In a sorted list, a key maps to the value of its one entry.
pub proof fn lemma_sorted_map<V>(s: Seq<(u64, V)>)
    requires
        strictly_sorted(s),
    ensures
        forall|k: u64| #[trigger] entries_map(s).dom().contains(k) <==> exists|i: int| 0 <= i < s.len() && s[i].0 == k,
        forall|i: int| 0 <= i < s.len() ==> #[trigger] entries_map(s)[s[i].0] == s[i].1,
    decreases s.len(),
{
    if s.len() > 0 {
        let t = s.drop_last();
        assert(strictly_sorted(t)) by {
            assert forall|i: int, j: int| 0 <= i < j < t.len() implies t[i].0 < t[j].0 by {
                assert(t[i] == s[i] && t[j] == s[j]);
            }
        }
        lemma_sorted_map(t);
        assert forall|k: u64| #[trigger] entries_map(s).dom().contains(k) <==> exists|i: int| 0 <= i < s.len() && s[i].0 == k by {
            if entries_map(s).dom().contains(k) && k != s.last().0 {
                assert(entries_map(t).dom().contains(k));
                let i = choose|i: int| 0 <= i < t.len() && t[i].0 == k;
                assert(t[i] == s[i]);
                assert(s[i].0 == k);
            }
            if entries_map(s).dom().contains(k) && k == s.last().0 {
                assert(s[s.len() - 1].0 == k);
            }
            if exists|i: int| 0 <= i < s.len() && s[i].0 == k {
                let i = choose|i: int| 0 <= i < s.len() && s[i].0 == k;
                if i < t.len() {
                    assert(t[i] == s[i]);
                    assert(t[i].0 == k);
                    assert(entries_map(t).dom().contains(k));
                }
            }
        }
        assert forall|i: int| 0 <= i < s.len() implies #[trigger] entries_map(s)[s[i].0] == s[i].1 by {
            if i < t.len() {
                assert(t[i] == s[i]);
                assert(s[i].0 < s[s.len() - 1].0);
                assert(entries_map(t)[t[i].0] == t[i].1);
                assert(entries_map(t).dom().contains(t[i].0));
            }
        }
    }
}

/// Entries sorted by key, looked up by binary search, or a scan when there
/// are few.
pub struct SortedMap<V> {
    entries: Vec<(u64, V)>,
}

impl<V> SortedMap<V> {
    #[verifier::type_invariant]
    spec fn inv(self) -> bool {
        strictly_sorted(self.entries@)
    }

    /// The entries, in increasing order of key.
    pub closed spec fn entries(&self) -> Seq<(u64, V)> {
        self.entries@
    }

    pub open spec fn view(&self) -> Map<u64, V> {
        entries_map(self.entries())
    }

    /// The entries are in increasing order of key.
    pub fn sorted(&self)
        ensures
            strictly_sorted(self.entries()),
    {
        proof {
            use_type_invariant(self);
        }
    }

    pub fn new_in(capacity: usize) -> (m: SortedMap<V>)
        ensures
            m.entries() == Seq::<(u64, V)>::empty(),
    {
        SortedMap { entries: Vec::with_capacity(capacity) }
    }

    /// Sorts the entries by key; of equal keys the last one given wins.
    pub fn from_iter_in(items: Vec<(u64, V)>) -> (m: SortedMap<V>)
        ensures
            m.view() == entries_map(items@),
            strictly_sorted(m.entries()),
    {
        let mut rest = items;
        let mut out: Vec<(u64, V)> = Vec::new();
        let ghost all = rest@;
        while rest.len() > 0
            invariant
                strictly_sorted(out@),
                entries_map(all) == entries_map(rest@).union_prefer_right(entries_map(out@)),
            decreases rest@.len(),
        {
            let ghost before = rest@;
            let (k, v) = rest.pop().unwrap();
            proof {
                assert(before.drop_last() == rest@);
                lemma_sorted_map(out@);
            }
            let ghost old_out = out@;
            let mut i: usize = 0;
            while i < out.len() && out[i].0 < k
                invariant
                    i <= out@.len(),
                    out@ == old_out,
                    strictly_sorted(out@),
                    forall|j: int| 0 <= j < i ==> out@[j].0 < k,
                decreases out@.len() - i,
            {
                i = i + 1;
            }
            if i < out.len() && out[i].0 == k {
                proof {
                    assert(entries_map(old_out).dom().contains(k));
                    assert(entries_map(all) =~= entries_map(rest@).union_prefer_right(entries_map(out@)));
                }
            } else {
                out.insert(i, (k, v));
                proof {
                    assert(out@ =~= old_out.subrange(0, i as int).push((k, v)) + old_out.subrange(i as int, old_out.len() as int));
                    assert forall|a: int, b: int| 0 <= a < b < out@.len() implies out@[a].0 < out@[b].0 by {
                        if b < i {
                            assert(out@[a] == old_out[a] && out@[b] == old_out[b]);
                        } else if b == i {
                            assert(out@[a] == old_out[a]);
                        } else if a == i {
                            assert(out@[b] == old_out[b - 1]);
                        } else if a < i {
                            assert(out@[a] == old_out[a] && out@[b] == old_out[b - 1]);
                        } else {
                            assert(out@[a] == old_out[a - 1] && out@[b] == old_out[b - 1]);
                        }
                    }
                    lemma_sorted_map(out@);
                    assert(!entries_map(old_out).dom().contains(k)) by {
                        if entries_map(old_out).dom().contains(k) {
                            let j = choose|j: int| 0 <= j < old_out.len() && old_out[j].0 == k;
                            if j >= i {
                                assert(old_out[j].0 >= old_out[i as int].0);
                            }
                        }
                    }
                    assert forall|key: u64| #[trigger] entries_map(out@).dom().contains(key) <==> entries_map(old_out).insert(k, v).dom().contains(key) by {
                        if entries_map(out@).dom().contains(key) && key != k {
                            let j = choose|j: int| 0 <= j < out@.len() && out@[j].0 == key;
                            if j < i {
                                assert(old_out[j].0 == key);
                            } else if j > i {
                                assert(old_out[j - 1].0 == key);
                            }
                        }
                        if entries_map(old_out).dom().contains(key) {
                            let j = choose|j: int| 0 <= j < old_out.len() && old_out[j].0 == key;
                            if j < i {
                                assert(out@[j].0 == key);
                            } else {
                                assert(out@[j + 1].0 == key);
                            }
                        }
                        if key == k {
                            assert(out@[i as int].0 == k);
                        }
                    }
                    assert forall|key: u64| #[trigger] entries_map(out@).dom().contains(key) implies entries_map(out@)[key] == entries_map(old_out).insert(k, v)[key] by {
                        let j = choose|j: int| 0 <= j < out@.len() && out@[j].0 == key;
                        if j < i {
                            assert(out@[j] == old_out[j]);
                        } else if j > i {
                            assert(out@[j] == old_out[j - 1]);
                        }
                    }
                    assert(entries_map(out@) =~= entries_map(old_out).insert(k, v));
                    assert(entries_map(all) =~= entries_map(rest@).union_prefer_right(entries_map(out@)));
                }
            }
        }
        proof {
            assert(entries_map(rest@) =~= Map::<u64, V>::empty());
            assert(entries_map(all) =~= entries_map(out@));
        }
        SortedMap { entries: out }
    }

    /// Appends an entry whose key is greater than every key so far.
    pub fn push(&mut self, key: u64, value: V)
        requires
            old(self).entries().len() > 0 ==> old(self).entries().last().0 < key,
        ensures
            final(self).entries() == old(self).entries().push((key, value)),
    {
        proof {
            use_type_invariant(&*self);
        }
        let ghost e = self.entries@;
        proof {
            assert forall|a: int, b: int| 0 <= a < b < e.push((key, value)).len() implies e.push((key, value))[a].0 < e.push((key, value))[b].0 by {
                if b == e.len() && a < e.len() - 1 {
                    assert(e[a].0 < e[e.len() - 1].0);
                }
            }
        }
        let mut entries: Vec<(u64, V)> = Vec::new();
        std::mem::swap(&mut entries, &mut self.entries);
        entries.push((key, value));
        self.entries = entries;
    }

    /// Where `key` is, or where it would go.
    pub fn position(&self, key: u64) -> (res: Result<usize, usize>)
        ensures
            match res {
                Ok(i) => i < self.entries().len() && self.entries()[i as int].0 == key,
                Err(i) => i <= self.entries().len()
                    && (forall|j: int| 0 <= j < i ==> self.entries()[j].0 < key)
                    && (forall|j: int| i <= j < self.entries().len() ==> self.entries()[j].0 > key),
            },
    {
        proof {
            use_type_invariant(self);
        }
        let n = self.entries.len();
        if n < SCAN_BELOW {
            let mut i: usize = 0;
            while i < n
                invariant
                    n == self.entries@.len(),
                    i <= n,
                    strictly_sorted(self.entries@),
                    forall|j: int| 0 <= j < i ==> self.entries@[j].0 < key,
                decreases n - i,
            {
                let k = self.entries[i].0;
                if k == key {
                    return Ok(i);
                }
                if k > key {
                    return Err(i);
                }
                i = i + 1;
            }
            Err(n)
        } else {
            let mut lo: usize = 0;
            let mut hi: usize = n;
            while lo < hi
                invariant
                    n == self.entries@.len(),
                    lo <= hi <= n,
                    strictly_sorted(self.entries@),
                    forall|j: int| 0 <= j < lo ==> self.entries@[j].0 < key,
                    forall|j: int| hi <= j < n ==> self.entries@[j].0 > key,
                decreases hi - lo,
            {
                let mid = lo + (hi - lo) / 2;
                let k = self.entries[mid].0;
                if k == key {
                    return Ok(mid);
                } else if k < key {
                    lo = mid + 1;
                } else {
                    hi = mid;
                }
            }
            Err(lo)
        }
    }

    pub fn get(&self, key: &u64) -> (r: Option<&V>)
        ensures
            match r {
                Some(v) => self.view().dom().contains(*key) && *v == self.view()[*key],
                None => !self.view().dom().contains(*key),
            },
    {
        proof {
            use_type_invariant(self);
            lemma_sorted_map(self.entries@);
        }
        match self.position(*key) {
            Ok(i) => Some(&self.entries[i].1),
            Err(_) => None,
        }
    }

    pub fn contains_key(&self, key: &u64) -> (b: bool)
        ensures
            b == self.view().dom().contains(*key),
    {
        proof {
            use_type_invariant(self);
            lemma_sorted_map(self.entries@);
        }
        self.position(*key).is_ok()
    }

    pub fn len(&self) -> (n: usize)
        ensures
            n == self.entries().len(),
    {
        self.entries.len()
    }

    pub fn is_empty(&self) -> (b: bool)
        ensures
            b == (self.entries().len() == 0),
    {
        self.entries.len() == 0
    }

    pub fn as_slice(&self) -> (s: &[(u64, V)])
        ensures
            s@ == self.entries(),
    {
        self.entries.as_slice()
    }

    /// The values, in increasing order of their keys.
    pub fn values(&self) -> (out: Vec<&V>)
        ensures
            out@.len() == self.entries().len(),
            forall|i: int| 0 <= i < out@.len() ==> *out@[i] == #[trigger] self.entries()[i].1,
    {
        let mut out: Vec<&V> = Vec::new();
        let mut i: usize = 0;
        while i < self.entries.len()
            invariant
                i <= self.entries@.len(),
                out@.len() == i,
                forall|j: int| 0 <= j < i ==> *out@[j] == #[trigger] self.entries@[j].1,
            decreases self.entries@.len() - i,
        {
            out.push(&self.entries[i].1);
            i = i + 1;
        }
        out
    }

    /// The entries, keys with their values, in increasing order of key.
    pub fn iter(&self) -> (out: Vec<(u64, &V)>)
        ensures
            out@.len() == self.entries().len(),
            forall|i: int|
                0 <= i < out@.len() ==> out@[i].0 == (#[trigger] self.entries()[i]).0 && *out@[i].1
                    == self.entries()[i].1,
    {
        let mut out: Vec<(u64, &V)> = Vec::new();
        let mut i: usize = 0;
        while i < self.entries.len()
            invariant
                i <= self.entries@.len(),
                out@.len() == i,
                forall|j: int|
                    0 <= j < i ==> out@[j].0 == (#[trigger] self.entries@[j]).0 && *out@[j].1
                        == self.entries@[j].1,
            decreases self.entries@.len() - i,
        {
            let e = &self.entries[i];
            out.push((e.0, &e.1));
            i = i + 1;
        }
        out
    }

    /// The keys, in increasing order.
    pub fn keys(&self) -> (out: Vec<u64>)
        ensures
            out@.len() == self.entries().len(),
            forall|i: int| 0 <= i < out@.len() ==> out@[i] == #[trigger] self.entries()[i].0,
    {
        let mut out: Vec<u64> = Vec::new();
        let mut i: usize = 0;
        while i < self.entries.len()
            invariant
                i <= self.entries@.len(),
                out@.len() == i,
                forall|j: int| 0 <= j < i ==> out@[j] == #[trigger] self.entries@[j].0,
            decreases self.entries@.len() - i,
        {
            out.push(self.entries[i].0);
            i = i + 1;
        }
        out
    }
}

/// Hashes a digest key by its first eight bytes: digests are uniformly
/// distributed already, so nothing more is hashed.
#[derive(Clone, Copy, Debug)]
pub struct DigestHasher;

pub struct DigestHasher64(pub u64);

impl DigestHasher {
    pub fn build_hasher(&self) -> (h: DigestHasher64)
        ensures
            h.0 == 0,
    {
        DigestHasher64(0)
    }
}

impl DigestHasher64 {
    /// A digest key hashes exactly once, with this.
    pub fn write_u64(&mut self, v: u64)
        ensures
            final(self).0 == v,
    {
        self.0 = v;
    }

    pub fn finish(&self) -> (v: u64)
        ensures
            v == self.0,
    {
        self.0
    }
}

} // verus!

//! A cache of bounded size that drops what was not asked for the longest.

use crate::text;
use vstd::prelude::*;
use vstd::string::*;

verus! {

/// Entries by name, the least recently used first.
#[derive(Debug)]
pub struct LruCache<T> {
    entries: Vec<(String, T)>,
    capacity: usize,
}

/// The position of an entry from `i` on.
pub open spec fn position_from<T>(s: Seq<(Seq<char>, T)>, key: Seq<char>, i: int) -> Option<int>
    decreases s.len() - i,
{
    if i >= s.len() {
        None
    } else if s[i].0 == key {
        Some(i)
    } else {
        position_from(s, key, i + 1)
    }
}

/// The value under a name.
pub open spec fn cached<T>(s: Seq<(Seq<char>, T)>, key: Seq<char>) -> Option<T> {
    match position_from(s, key, 0) {
        Some(i) => Some(s[i].1),
        None => None,
    }
}

/// The entries without a name.
pub open spec fn without<T>(s: Seq<(Seq<char>, T)>, key: Seq<char>) -> Seq<(Seq<char>, T)> {
    match position_from(s, key, 0) {
        Some(i) => s.remove(i),
        None => s,
    }
}

/// The entries after a name was asked for: its entry is the most recent one.
pub open spec fn touched<T>(s: Seq<(Seq<char>, T)>, key: Seq<char>) -> Seq<(Seq<char>, T)> {
    match position_from(s, key, 0) {
        Some(i) => s.remove(i).push(s[i]),
        None => s,
    }
}

/// The entries after a value was stored: it is the most recent one, and where there would be
/// too many, the least recently used one is gone.
pub open spec fn stored<T>(s: Seq<(Seq<char>, T)>, key: Seq<char>, v: T, capacity: int) -> Seq<(Seq<char>, T)> {
    let t = without(s, key).push((key, v));
    if t.len() > capacity {
        t.drop_first()
    } else {
        t
    }
}

/// Whether no two entries have the same name.
pub open spec fn distinct<T>(s: Seq<(Seq<char>, T)>) -> bool {
    forall|i: int, j: int| 0 <= i < j < s.len() ==> (#[trigger] s[i]).0 != (#[trigger] s[j]).0
}

/// A position that is found holds the name, and no position before it does.
pub proof fn position_is_first<T>(s: Seq<(Seq<char>, T)>, key: Seq<char>, i: int)
    requires
        0 <= i <= s.len(),
    ensures
        match position_from(s, key, i) {
            Some(p) => i <= p < s.len() && s[p].0 == key && forall|j: int| i <= j < p ==> (#[trigger] s[j]).0 != key,
            None => forall|j: int| i <= j < s.len() ==> (#[trigger] s[j]).0 != key,
        },
    decreases s.len() - i,
{
    if i < s.len() && s[i].0 != key {
        position_is_first(s, key, i + 1);
    }
}

/// The position of the one entry with a name.
proof fn only_position<T>(s: Seq<(Seq<char>, T)>, key: Seq<char>, p: int)
    requires
        0 <= p < s.len(),
        s[p].0 == key,
        forall|j: int| 0 <= j < p ==> (#[trigger] s[j]).0 != key,
    ensures
        position_from(s, key, 0) == Some(p),
{
    position_is_first(s, key, 0);
}

/// What was just stored is found, whatever else was in the cache.
pub proof fn stored_is_cached<T>(s: Seq<(Seq<char>, T)>, key: Seq<char>, v: T, capacity: int)
    requires
        distinct(s),
        0 < capacity,
    ensures
        cached(stored(s, key, v, capacity), key) == Some(v),
{
    position_is_first(s, key, 0);
    let t = stored(s, key, v, capacity);
    let w = without(s, key);
    assert(w.push((key, v)).last() == (key, v));
    assert forall|j: int| 0 <= j < w.len() implies (#[trigger] w[j]).0 != key by {
        if let Some(p) = position_from(s, key, 0) {
            if j >= p {
                assert(w[j] == s[j + 1]);
                assert(s[p].0 != s[j + 1].0);
            }
        }
    }
    only_position(t, key, t.len() - 1);
}

/// Storing keeps the names distinct and the number of entries within the capacity.
pub proof fn storing_keeps_bounds<T>(s: Seq<(Seq<char>, T)>, key: Seq<char>, v: T, capacity: int)
    requires
        distinct(s),
        s.len() <= capacity,
        0 < capacity,
    ensures
        distinct(stored(s, key, v, capacity)),
        0 < stored(s, key, v, capacity).len() <= capacity,
{
    position_is_first(s, key, 0);
    let w = without(s, key);
    let t = w.push((key, v));
    assert forall|i: int, j: int| 0 <= i < j < t.len() implies (#[trigger] t[i]).0 != (#[trigger] t[j]).0 by {
        if let Some(p) = position_from(s, key, 0) {
            let i2 = if i >= p { i + 1 } else { i };
            assert(t[i] == s[i2]);
            if j < w.len() {
                let j2 = if j >= p { j + 1 } else { j };
                assert(t[j] == s[j2]);
                assert(s[i2].0 != s[j2].0);
            } else if i2 < p {
                assert(s[i2].0 != s[p].0);
            } else {
                assert(s[p].0 != s[i2].0);
            }
        }
    }
    let u = t.drop_first();
    assert forall|i: int, j: int| 0 <= i < j < u.len() implies (#[trigger] u[i]).0 != (#[trigger] u[j]).0 by {
        assert(u[i] == t[i + 1] && u[j] == t[j + 1]);
    }
}

/// Asking for a name changes neither the names nor the values, only their order.
pub proof fn touching_keeps_entries<T>(s: Seq<(Seq<char>, T)>, key: Seq<char>)
    requires
        distinct(s),
    ensures
        distinct(touched(s, key)),
        touched(s, key).len() == s.len(),
        touched(s, key).to_multiset() == s.to_multiset(),
        position_from(s, key, 0) is Some ==> touched(s, key).last() == s[position_from(s, key, 0)->0],
{
    position_is_first(s, key, 0);
    if let Some(p) = position_from(s, key, 0) {
        let t = touched(s, key);
        assert forall|i: int, j: int| 0 <= i < j < t.len() implies (#[trigger] t[i]).0 != (#[trigger] t[j]).0 by {
            let i2 = if i >= p { i + 1 } else { i };
            assert(t[i] == s[i2]);
            if j < s.len() - 1 {
                let j2 = if j >= p { j + 1 } else { j };
                assert(t[j] == s[j2]);
                assert(s[i2].0 != s[j2].0);
            } else if i2 < p {
                assert(s[i2].0 != s[p].0);
            } else {
                assert(s[p].0 != s[i2].0);
            }
        }
        s.to_multiset_ensures();
        s.remove(p).to_multiset_ensures();
    }
}

proof fn kept_position<T>(s: Seq<(Seq<char>, T)>, t: Seq<(Seq<char>, T)>, i: int, j: int)
    requires
        distinct(t),
        0 <= i < s.len(),
        0 <= j < t.len(),
        t[j] == s[i],
    ensures
        cached(t, s[i].0) == Some(s[i].1),
{
    only_position(t, s[i].0, j);
}

/// Storing a value drops nothing but the entry that was not asked for the longest, and that only
/// where the cache is full and the name is new.
pub proof fn storing_drops_the_least_recent<T>(s: Seq<(Seq<char>, T)>, key: Seq<char>, v: T, capacity: int, i: int)
    requires
        distinct(s),
        s.len() <= capacity,
        0 < capacity,
        0 <= i < s.len(),
        s[i].0 != key,
    ensures
        cached(stored(s, key, v, capacity), s[i].0) == if s.len() == capacity && cached(s, key) is None && i == 0 {
            None
        } else {
            Some(s[i].1)
        },
{
    storing_keeps_bounds(s, key, v, capacity);
    position_is_first(s, key, 0);
    let t = stored(s, key, v, capacity);
    let name = s[i].0;
    match position_from(s, key, 0) {
        Some(p) => {
            let j = if i > p { i - 1 } else { i };
            assert(s.remove(p)[j] == s[i]);
            assert(t[j] == s[i]);
            kept_position(s, t, i, j);
        },
        None => if s.len() == capacity {
            if i == 0 {
                assert forall|j: int| 0 <= j < t.len() implies (#[trigger] t[j]).0 != name by {
                    if j + 1 < s.len() {
                        assert(t[j] == s[j + 1]);
                        assert(s[0].0 != s[j + 1].0);
                    }
                }
                position_is_first(t, name, 0);
            } else {
                assert(t[i - 1] == s[i]);
                kept_position(s, t, i, i - 1);
            }
        } else {
            assert(t[i] == s[i]);
            kept_position(s, t, i, i);
        },
    }
}

/// What was just asked for survives the next store, where there is room for two.
pub proof fn what_is_asked_for_is_kept<T>(s: Seq<(Seq<char>, T)>, asked: Seq<char>, key: Seq<char>, v: T, capacity: int)
    requires
        distinct(s),
        s.len() <= capacity,
        1 < capacity,
        cached(s, asked) is Some,
        asked != key,
    ensures
        cached(stored(touched(s, asked), key, v, capacity), asked) == cached(s, asked),
{
    position_is_first(s, asked, 0);
    touching_keeps_entries(s, asked);
    let t = touched(s, asked);
    storing_drops_the_least_recent(t, key, v, capacity, t.len() - 1);
}

impl<T> LruCache<T> {
    /// The entries.
    pub closed spec fn view(&self) -> Seq<(Seq<char>, T)> {
        self.entries@.map_values(|e: (String, T)| (e.0@, e.1))
    }

    /// How many entries there can be.
    pub closed spec fn limit(&self) -> int {
        self.capacity as int
    }

    /// Whether the names are distinct and the entries within the capacity.
    pub open spec fn well_formed(&self) -> bool {
        &&& distinct(self@)
        &&& self@.len() <= self.limit()
        &&& 0 < self.limit()
    }

    /// An empty cache.
    pub fn new(capacity: usize) -> (out: LruCache<T>)
        requires
            0 < capacity,
        ensures
            out@ == Seq::<(Seq<char>, T)>::empty(),
            out.limit() == capacity,
            out.well_formed(),
    {
        let out = LruCache { entries: Vec::new(), capacity };
        assert(out@ =~= Seq::empty());
        out
    }

    /// How many entries there are.
    pub fn len(&self) -> (out: usize)
        ensures
            out == self@.len(),
    {
        self.entries.len()
    }

    /// Whether there is no entry.
    pub fn is_empty(&self) -> (out: bool)
        ensures
            out == (self@.len() == 0),
    {
        self.entries.len() == 0
    }

    /// The position of a name.
    fn find(&self, key: &str) -> (out: Option<usize>)
        ensures
            match out {
                Some(i) => position_from(self@, key@, 0) == Some(i as int) && i < self@.len(),
                None => position_from(self@, key@, 0) is None,
            },
    {
        let n = self.entries.len();
        let mut i: usize = 0;
        while i < n
            invariant
                i <= n,
                n == self.entries@.len(),
                position_from(self@, key@, 0) == position_from(self@, key@, i as int),
            decreases n - i,
        {
            assert(self@[i as int].0 == self.entries@[i as int].0@);
            if text::same_text(self.entries[i].0.as_str(), key) {
                return Some(i);
            }
            i = i + 1;
        }
        None
    }

    /// Asks for a name: its entry, if there is one, becomes the most recent one.
    pub fn touch(&mut self, key: &str) -> (out: bool)
        requires
            old(self).well_formed(),
        ensures
            final(self)@ == touched(old(self)@, key@),
            final(self).limit() == old(self).limit(),
            final(self).well_formed(),
            out == (cached(old(self)@, key@) is Some),
            out ==> final(self)@.len() > 0 && Some(final(self)@.last().1) == cached(old(self)@, key@),
    {
        let ghost before = self@;
        match self.find(key) {
            None => false,
            Some(i) => {
                let e = self.entries.remove(i);
                self.entries.push(e);
                assert(self@ =~= before.remove(i as int).push(before[i as int]));
                proof {
                    touching_keeps_entries(before, key@);
                }
                true
            },
        }
    }

    /// The most recent value.
    pub fn latest(&self) -> (out: &T)
        requires
            self@.len() > 0,
        ensures
            *out == self@.last().1,
    {
        let n = self.entries.len();
        &self.entries[n - 1].1
    }

    /// Stores a value under a name. Where there would be too many entries, the least recently
    /// used one goes.
    pub fn insert(&mut self, key: String, v: T)
        requires
            old(self).well_formed(),
        ensures
            final(self)@ == stored(old(self)@, key@, v, old(self).limit()),
            final(self).limit() == old(self).limit(),
            final(self).well_formed(),
            cached(final(self)@, key@) == Some(v),
    {
        let ghost before = self@;
        proof {
            storing_keeps_bounds(before, key@, v, self.limit());
            stored_is_cached(before, key@, v, self.limit());
        }
        if let Some(i) = self.find(key.as_str()) {
            self.entries.remove(i);
        }
        assert(self@ =~= without(before, key@));
        let ghost name = key@;
        self.entries.push((key, v));
        assert(self@ =~= without(before, name).push((name, v)));
        let ghost full = self@;
        if self.entries.len() > self.capacity {
            self.entries.remove(0);
            assert(self@ =~= full.drop_first());
        }
    }
}

} // verus!

//! Upload sessions: what an announced upload or a received NAR waits with
//! until the client's next request takes it, each used once and dropped
//! when it grows too old.
use vstd::prelude::*;
use crate::timing;

verus! {

/// The table's entries as a map from session id to what the session holds
/// and when it was opened.
pub open spec fn entries_map<T>(s: Seq<(u128, T, u128)>) -> Map<u128, (T, u128)>
    decreases s.len(),
{
    if s.len() == 0 {
        Map::empty()
    } else {
        entries_map(s.drop_last()).insert(s.last().0, (s.last().1, s.last().2))
    }
}

/// No session id occurs twice.
pub open spec fn distinct_ids<T>(s: Seq<(u128, T, u128)>) -> bool {
    forall|i: int, j: int| 0 <= i < j < s.len() ==> s[i].0 != s[j].0
}

/// How old something opened at `opened` is at `now` (nothing, if `now`
/// lies before it).
pub open spec fn age(opened: u128, now: u128) -> u128 {
    if now >= opened { (now - opened) as u128 } else { 0 }
}

/// Whether a session opened at `opened` is still kept at `now`, given how
/// many seconds sessions of its kind live.
pub open spec fn alive(opened: u128, now: u128, ttl_secs: u64) -> bool {
    timing::younger_than(age(opened, now), ttl_secs)
}

proof fn lemma_entries_dom<T>(s: Seq<(u128, T, u128)>, id: u128)
    ensures
        entries_map(s).dom().contains(id) <==> exists|j: int| 0 <= j < s.len() && s[j].0 == id,
    decreases s.len(),
{
    if s.len() > 0 {
        lemma_entries_dom(s.drop_last(), id);
        if exists|j: int| 0 <= j < s.drop_last().len() && s.drop_last()[j].0 == id {
            let j = choose|j: int| 0 <= j < s.drop_last().len() && s.drop_last()[j].0 == id;
            assert(s[j].0 == id);
        }
        if exists|j: int| 0 <= j < s.len() && s[j].0 == id {
            let j = choose|j: int| 0 <= j < s.len() && s[j].0 == id;
            if j < s.len() - 1 {
                assert(s.drop_last()[j].0 == id);
            }
        }
    }
}

proof fn lemma_entries_value<T>(s: Seq<(u128, T, u128)>, j: int)
    requires
        distinct_ids(s),
        0 <= j < s.len(),
    ensures
        entries_map(s).dom().contains(s[j].0),
        entries_map(s)[s[j].0] == (s[j].1, s[j].2),
    decreases s.len(),
{
    if j < s.len() - 1 {
        let d = s.drop_last();
        assert(d[j] == s[j]);
        assert(distinct_ids(d));
        lemma_entries_value(d, j);
    }
}

proof fn lemma_entries_remove<T>(s: Seq<(u128, T, u128)>, i: int)
    requires
        distinct_ids(s),
        0 <= i < s.len(),
    ensures
        distinct_ids(s.remove(i)),
        entries_map(s.remove(i)) == entries_map(s).remove(s[i].0),
    decreases s.len(),
{
    let r = s.remove(i);
    assert(distinct_ids(r)) by {
        assert forall|a: int, b: int| 0 <= a < b < r.len() implies r[a].0 != r[b].0 by {
            let a2 = if a < i { a } else { a + 1 };
            let b2 = if b < i { b } else { b + 1 };
            assert(r[a] == s[a2]);
            assert(r[b] == s[b2]);
        }
    }
    let d = s.drop_last();
    assert(distinct_ids(d));
    if i == s.len() - 1 {
        assert(r =~= d);
        lemma_entries_dom(d, s.last().0);
        assert(entries_map(s).remove(s[i].0) =~= entries_map(d));
    } else {
        lemma_entries_remove(d, i);
        assert(r.drop_last() =~= d.remove(i));
        assert(r.last() == s.last());
        assert(s[i] == d[i]);
        assert(s[i].0 != s.last().0);
        assert(entries_map(r) =~= entries_map(s).remove(s[i].0));
    }
}

/// Sessions of one kind, by id. Each holds a value of type `T` and the
/// time it was opened, in nanoseconds on a clock that only moves forward.
pub struct SessionTable<T> {
    entries: Vec<(u128, T, u128)>,
}

impl<T> View for SessionTable<T> {
    type V = Map<u128, (T, u128)>;

    closed spec fn view(&self) -> Map<u128, (T, u128)> {
        entries_map(self.entries@)
    }
}

impl<T> SessionTable<T> {
    /// The table's consistency: no id occurs twice.
    pub closed spec fn wf(&self) -> bool {
        distinct_ids(self.entries@)
    }

    /// An empty table.
    pub fn new() -> (r: Self)
        ensures
            r.wf(),
            r@ == Map::<u128, (T, u128)>::empty(),
    {
        SessionTable { entries: Vec::new() }
    }

    /// The position of session `id`, if it is open.
    fn position(&self, id: u128) -> (r: Option<usize>)
        requires
            self.wf(),
        ensures
            match r {
                Some(i) => i < self.entries@.len() && self.entries@[i as int].0 == id,
                None => !self@.dom().contains(id),
            },
    {
        let mut i: usize = 0;
        while i < self.entries.len()
            invariant
                i <= self.entries@.len(),
                forall|j: int| 0 <= j < i ==> self.entries@[j].0 != id,
            decreases self.entries@.len() - i,
        {
            if self.entries[i].0 == id {
                return Some(i);
            }
            i = i + 1;
        }
        proof {
            lemma_entries_dom(self.entries@, id);
        }
        None
    }

    /// Closes session `id` and gives what it held and when it was opened:
    /// a session is used once. `None` if no such session is open.
    pub fn take(&mut self, id: u128) -> (r: Option<(T, u128)>)
        requires
            old(self).wf(),
        ensures
            final(self).wf(),
            r == old(self)@.get(id),
            final(self)@ == old(self)@.remove(id),
    {
        match self.position(id) {
            Some(i) => {
                proof {
                    lemma_entries_value(self.entries@, i as int);
                    lemma_entries_remove(self.entries@, i as int);
                }
                let (_, value, opened) = self.entries.remove(i);
                Some((value, opened))
            },
            None => {
                assert(old(self)@.remove(id) =~= old(self)@);
                None
            },
        }
    }

    /// Opens session `id`, holding `value`, at time `now`; a session that
    /// was open under the same id is replaced.
    pub fn open(&mut self, id: u128, value: T, now: u128)
        requires
            old(self).wf(),
        ensures
            final(self).wf(),
            final(self)@ == old(self)@.insert(id, (value, now)),
    {
        let _ = self.take(id);
        let ghost before = self.entries@;
        proof {
            lemma_entries_dom(before, id);
        }
        self.entries.push((id, value, now));
        proof {
            assert(self.entries@.drop_last() =~= before);
            assert(self.entries@.last() == (id, value, now));
            assert forall|i: int, j: int| 0 <= i < j < self.entries@.len() implies self.entries@[i].0 != self.entries@[j].0 by {
                if j == self.entries@.len() - 1 {
                    assert(self.entries@[i] == before[i]);
                } else {
                    assert(self.entries@[i] == before[i]);
                    assert(self.entries@[j] == before[j]);
                }
            }
            assert(old(self)@.remove(id).insert(id, (value, now)) =~= old(self)@.insert(id, (value, now)));
        }
    }

    /// Drops every session that is no longer alive at `now` for sessions
    /// that live `ttl_secs` seconds; keeps every other one as it is.
    pub fn sweep(&mut self, now: u128, ttl_secs: u64)
        requires
            old(self).wf(),
        ensures
            final(self).wf(),
            final(self)@ == old(self)@.restrict(
                old(self)@.dom().filter(|id: u128| alive(old(self)@[id].1, now, ttl_secs)),
            ),
    {
        let ghost m = self@;
        let mut i: usize = 0;
        while i < self.entries.len()
            invariant
                distinct_ids(self.entries@),
                i <= self.entries@.len(),
                forall|j: int| 0 <= j < i ==> alive(#[trigger] self.entries@[j].2, now, ttl_secs),
                forall|id: u128| #[trigger] entries_map(self.entries@).dom().contains(id)
                    ==> m.dom().contains(id) && entries_map(self.entries@)[id] == m[id],
                forall|id: u128| #[trigger] m.dom().contains(id) && alive(m[id].1, now, ttl_secs)
                    ==> entries_map(self.entries@).dom().contains(id),
            decreases self.entries@.len() - i,
        {
            let opened = self.entries[i].2;
            let elapsed: u128 = if now >= opened { now - opened } else { 0 };
            if timing::is_younger(elapsed, ttl_secs) {
                i = i + 1;
            } else {
                proof {
                    lemma_entries_value(self.entries@, i as int);
                    lemma_entries_remove(self.entries@, i as int);
                    let s = self.entries@;
                    assert forall|j: int| 0 <= j < i implies alive(#[trigger] s.remove(i as int)[j].2, now, ttl_secs) by {
                        assert(s.remove(i as int)[j] == s[j]);
                    }
                }
                let _ = self.entries.remove(i);
            }
        }
        proof {
            let f = m.restrict(m.dom().filter(|id: u128| alive(m[id].1, now, ttl_secs)));
            let e = entries_map(self.entries@);
            assert forall|id: u128| e.dom().contains(id) implies alive(m[id].1, now, ttl_secs) by {
                lemma_entries_dom(self.entries@, id);
                let j = choose|j: int| 0 <= j < self.entries@.len() && self.entries@[j].0 == id;
                lemma_entries_value(self.entries@, j);
                assert(alive(self.entries@[j].2, now, ttl_secs));
            }
            assert(e =~= f);
        }
    }
}

} // verus!

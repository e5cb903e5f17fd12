use vstd::prelude::*;

use crate::error::DownloadError;
use crate::record::{DownloadProgress, same_record};
use crate::session::{ActiveDownload, DownloadState, DownloadStatus, StopSignal, is_running};

verus! {

/// The sessions a process knows of, each under its id. One value owned by the host,
/// handed to the control requests; ids are unique.
pub struct DownloadManager {
    downloads: Vec<ActiveDownload>,
}

/// The id a session is filed under.
pub open spec fn key_of(e: ActiveDownload) -> Seq<char> {
    e.progress.id@
}

/// Some session in `s` has id `id`.
pub open spec fn has_key(s: Seq<ActiveDownload>, id: Seq<char>) -> bool {
    exists|i: int| 0 <= i < s.len() && key_of(#[trigger] s[i]) == id
}

/// The map from ids to sessions that `s` lists.
pub open spec fn map_of(s: Seq<ActiveDownload>) -> Map<Seq<char>, ActiveDownload> {
    Map::new(
        |id: Seq<char>| has_key(s, id),
        |id: Seq<char>| s[choose|i: int| 0 <= i < s.len() && key_of(#[trigger] s[i]) == id],
    )
}

pub open spec fn keys_unique(s: Seq<ActiveDownload>) -> bool {
    forall|i: int, j: int|
        0 <= i < s.len() && 0 <= j < s.len() && i != j ==> key_of(#[trigger] s[i]) != key_of(
            #[trigger] s[j],
        )
}

proof fn lemma_map_entry(s: Seq<ActiveDownload>, i: int)
    requires
        keys_unique(s),
        0 <= i < s.len(),
    ensures
        map_of(s).contains_key(key_of(s[i])),
        map_of(s)[key_of(s[i])] == s[i],
{
    let id = key_of(s[i]);
    assert(has_key(s, id));
    let j = choose|j: int| 0 <= j < s.len() && key_of(#[trigger] s[j]) == id;
    assert(j == i);
}

/// A session list with unique ids lists exactly the map `m` when every listed session
/// is in `m` under its id and every id of `m` is listed.
proof fn lemma_map_is(s: Seq<ActiveDownload>, m: Map<Seq<char>, ActiveDownload>)
    requires
        keys_unique(s),
        forall|i: int| 0 <= i < s.len() ==> m.contains_key(key_of(#[trigger] s[i])) && m[key_of(s[i])] == s[i],
        forall|id: Seq<char>| #[trigger] m.contains_key(id) ==> has_key(s, id),
    ensures
        map_of(s) == m,
{
    assert forall|id: Seq<char>| #[trigger] map_of(s).contains_key(id) implies m.contains_key(id)
        && map_of(s)[id] == m[id] by {
        let j = choose|j: int| 0 <= j < s.len() && key_of(#[trigger] s[j]) == id;
        lemma_map_entry(s, j);
    }
    assert(map_of(s) =~= m);
}

/// The session paused: its tasks asked to stop and, if running, its state `Paused`.
pub open spec fn paused(e: ActiveDownload) -> ActiveDownload {
    ActiveDownload {
        stop: StopSignal::Pause,
        status: if is_running(e.status.status) {
            DownloadStatus { status: DownloadState::Paused, ..e.status }
        } else {
            e.status
        },
        ..e
    }
}

impl DownloadManager {
    /// Ids are unique and every session is well formed.
    pub closed spec fn wf(&self) -> bool {
        &&& keys_unique(self.downloads@)
        &&& forall|i: int| 0 <= i < self.downloads@.len() ==> (#[trigger] self.downloads@[i]).wf()
    }

    /// The sessions, by id.
    pub closed spec fn view(&self) -> Map<Seq<char>, ActiveDownload> {
        map_of(self.downloads@)
    }

    /// The sessions, in the order they were first registered.
    pub closed spec fn entries(&self) -> Seq<ActiveDownload> {
        self.downloads@
    }

    pub fn new() -> (r: DownloadManager)
        ensures
            r.wf(),
            r@ == Map::<Seq<char>, ActiveDownload>::empty(),
            r.entries().len() == 0,
    {
        let r = DownloadManager { downloads: Vec::new() };
        assert(r@ =~= Map::<Seq<char>, ActiveDownload>::empty());
        r
    }

    /// Files `entry` under its id, in place of any session with that id.
    pub fn register(&mut self, entry: ActiveDownload)
        requires
            old(self).wf(),
            entry.wf(),
        ensures
            final(self).wf(),
            final(self)@ == old(self)@.insert(key_of(entry), entry),
    {
        let ghost s = self.downloads@;
        let ghost k = key_of(entry);
        let ghost m = s.len();
        match self.find(entry.progress.id.as_str()) {
            Some(i) => {
                let ghost t = s.update(i as int, entry);
                proof {
                    assert forall|a: int, b: int| 0 <= a < t.len() && 0 <= b < t.len() && a != b implies key_of(
                        #[trigger] t[a],
                    ) != key_of(#[trigger] t[b]) by {
                        assert(key_of(t[a]) == key_of(s[a]));
                        assert(key_of(t[b]) == key_of(s[b]));
                    }
                    let target = map_of(s).insert(k, entry);
                    assert forall|j: int| 0 <= j < t.len() implies target.contains_key(key_of(#[trigger] t[j]))
                        && target[key_of(t[j])] == t[j] by {
                        if j != i {
                            lemma_map_entry(s, j);
                        }
                    }
                    assert forall|id: Seq<char>| #[trigger] target.contains_key(id) implies has_key(t, id) by {
                        if id == k {
                            assert(key_of(t[i as int]) == id);
                        } else {
                            let j = choose|j: int| 0 <= j < s.len() && key_of(#[trigger] s[j]) == id;
                            assert(key_of(t[j]) == id);
                        }
                    }
                    lemma_map_is(t, target);
                }
                self.downloads[i] = entry;
                assert(self.downloads@ == t);
            },
            None => {
                let ghost t = s.push(entry);
                proof {
                    assert forall|a: int, b: int| 0 <= a < t.len() && 0 <= b < t.len() && a != b implies key_of(
                        #[trigger] t[a],
                    ) != key_of(#[trigger] t[b]) by {
                        if a < m && b < m {
                            assert(t[a] == s[a] && t[b] == s[b]);
                        } else if a < m {
                            assert(t[a] == s[a]);
                        } else {
                            assert(t[b] == s[b]);
                        }
                    }
                    let target = map_of(s).insert(k, entry);
                    assert forall|j: int| 0 <= j < t.len() implies target.contains_key(key_of(#[trigger] t[j]))
                        && target[key_of(t[j])] == t[j] by {
                        if j < m {
                            assert(t[j] == s[j]);
                            lemma_map_entry(s, j);
                        }
                    }
                    assert forall|id: Seq<char>| #[trigger] target.contains_key(id) implies has_key(t, id) by {
                        if id == k {
                            assert(key_of(t[m as int]) == id);
                        } else {
                            let j = choose|j: int| 0 <= j < s.len() && key_of(#[trigger] s[j]) == id;
                            assert(t[j] == s[j]);
                        }
                    }
                    lemma_map_is(t, target);
                }
                self.downloads.push(entry);
                assert(self.downloads@ == t);
            },
        }
    }

    /// Takes the session filed under `id` out of the manager.
    pub fn take(&mut self, id: &str) -> (r: Option<ActiveDownload>)
        requires
            old(self).wf(),
        ensures
            final(self).wf(),
            old(self)@.contains_key(id@) ==> r == Some(old(self)@[id@]),
            !old(self)@.contains_key(id@) ==> r is None,
            r matches Some(e) ==> e.wf() && key_of(e) == id@,
            final(self)@ == old(self)@.remove(id@),
    {
        let ghost s = self.downloads@;
        match self.find(id) {
            Some(i) => {
                let ghost t = s.remove(i as int);
                proof {
                    lemma_map_entry(s, i as int);
                    assert forall|a: int, b: int| 0 <= a < t.len() && 0 <= b < t.len() && a != b implies key_of(
                        #[trigger] t[a],
                    ) != key_of(#[trigger] t[b]) by {
                        let a2 = if a < i { a } else { a + 1 };
                        let b2 = if b < i { b } else { b + 1 };
                        assert(t[a] == s[a2] && t[b] == s[b2]);
                    }
                    let target = map_of(s).remove(id@);
                    assert forall|j: int| 0 <= j < t.len() implies target.contains_key(key_of(#[trigger] t[j]))
                        && target[key_of(t[j])] == t[j] by {
                        let j2 = if j < i { j } else { j + 1 };
                        assert(t[j] == s[j2]);
                        lemma_map_entry(s, j2);
                    }
                    assert forall|x: Seq<char>| #[trigger] target.contains_key(x) implies has_key(t, x) by {
                        let j = choose|j: int| 0 <= j < s.len() && key_of(#[trigger] s[j]) == x;
                        if j < i {
                            assert(t[j] == s[j]);
                        } else {
                            assert(t[j - 1] == s[j]);
                        }
                    }
                    lemma_map_is(t, target);
                }
                let e = self.downloads.remove(i);
                assert(self.downloads@ == t);
                Some(e)
            },
            None => {
                assert(map_of(s).remove(id@) =~= map_of(s));
                None
            },
        }
    }

    /// The snapshot of the session filed under `id`.
    pub fn get_status(&self, id: &str) -> (r: Result<DownloadStatus, DownloadError>)
        requires
            self.wf(),
        ensures
            self@.contains_key(id@) ==> r == Ok::<DownloadStatus, DownloadError>(self@[id@].status),
            !self@.contains_key(id@) ==> r matches Err(DownloadError::NotFound),
    {
        match self.find(id) {
            Some(i) => {
                proof {
                    lemma_map_entry(self.downloads@, i as int);
                }
                Ok(self.downloads[i].status.snapshot())
            },
            None => Err(DownloadError::NotFound),
        }
    }

    /// The snapshots of all sessions, in the order they were first registered.
    pub fn list(&self) -> (r: Vec<DownloadStatus>)
        requires
            self.wf(),
        ensures
            r@ == self.entries().map_values(|e: ActiveDownload| e.status),
            forall|i: int| 0 <= i < r@.len() ==> self@.contains_key(#[trigger] r@[i].id@)
                && self@[r@[i].id@].status == r@[i],
            r@.len() == self@.dom().len(),
            forall|i: int, j: int| 0 <= i < r@.len() && 0 <= j < r@.len() && i != j ==> (#[trigger] r@[i]).id@
                != (#[trigger] r@[j]).id@,
    {
        let mut r: Vec<DownloadStatus> = Vec::new();
        let mut i: usize = 0;
        while i < self.downloads.len()
            invariant
                i <= self.downloads@.len(),
                r@ == self.downloads@.subrange(0, i as int).map_values(|e: ActiveDownload| e.status),
            decreases self.downloads@.len() - i,
        {
            r.push(self.downloads[i].status.snapshot());
            i = i + 1;
            assert(r@ =~= self.downloads@.subrange(0, i as int).map_values(|e: ActiveDownload| e.status));
        }
        assert(self.downloads@.subrange(0, i as int) =~= self.downloads@);
        proof {
            assert forall|i: int| 0 <= i < r@.len() implies self@.contains_key(#[trigger] r@[i].id@)
                && self@[r@[i].id@].status == r@[i] by {
                lemma_map_entry(self.downloads@, i);
                assert(self.downloads@[i].wf());
            }
            lemma_dom_len(self.downloads@);
            assert forall|i: int, j: int| 0 <= i < r@.len() && 0 <= j < r@.len() && i != j implies (#[trigger] r@[i]).id@
                != (#[trigger] r@[j]).id@ by {
                assert(self.downloads@[i].wf() && self.downloads@[j].wf());
                assert(key_of(self.downloads@[i]) != key_of(self.downloads@[j]));
            }
        }
        r
    }

    /// Pauses the session filed under `id` and hands back a copy of its record, to be
    /// saved so that a resume finds it.
    pub fn pause(&mut self, id: &str) -> (r: Result<DownloadProgress, DownloadError>)
        requires
            old(self).wf(),
        ensures
            final(self).wf(),
            !old(self)@.contains_key(id@) ==> (r matches Err(DownloadError::NotFound))
                && final(self)@ == old(self)@,
            old(self)@.contains_key(id@) ==> {
                &&& final(self)@ == old(self)@.insert(id@, paused(old(self)@[id@]))
                &&& r matches Ok(p) && same_record(p, old(self)@[id@].progress)
            },
    {
        match self.take(id) {
            Some(e) => {
                let mut e = e;
                e.pause();
                let record = e.progress.duplicate();
                self.register(e);
                proof {
                    assert(old(self)@.remove(id@).insert(id@, paused(old(self)@[id@])) =~= old(
                        self,
                    )@.insert(id@, paused(old(self)@[id@])));
                }
                Ok(record)
            },
            None => {
                assert(old(self)@.remove(id@) =~= old(self)@);
                Err(DownloadError::NotFound)
            },
        }
    }

    /// Cancels the session filed under `id` and forgets it; says whether there was one.
    /// Asking again, or for an unknown id, changes nothing.
    pub fn cancel(&mut self, id: &str) -> (r: bool)
        requires
            old(self).wf(),
        ensures
            final(self).wf(),
            r == old(self)@.contains_key(id@),
            final(self)@ == old(self)@.remove(id@),
    {
        match self.take(id) {
            Some(e) => {
                let mut e = e;
                e.cancel();
                true
            },
            None => false,
        }
    }

    fn find(&self, id: &str) -> (r: Option<usize>)
        ensures
            r matches Some(i) ==> i < self.downloads@.len() && key_of(self.downloads@[i as int]) == id@,
            r is None ==> !has_key(self.downloads@, id@),
    {
        let key = String::from_str(id);
        let mut i: usize = 0;
        while i < self.downloads.len()
            invariant
                key@ == id@,
                i <= self.downloads@.len(),
                forall|k: int| 0 <= k < i ==> key_of(#[trigger] self.downloads@[k]) != id@,
            decreases self.downloads@.len() - i,
        {
            if self.downloads[i].progress.id == key {
                return Some(i);
            }
            i = i + 1;
        }
        None
    }
}

proof fn lemma_dom_len(s: Seq<ActiveDownload>)
    requires
        keys_unique(s),
    ensures
        map_of(s).dom().len() == s.len(),
        map_of(s).dom().finite(),
    decreases s.len(),
{
    let m = map_of(s);
    if s.len() == 0 {
        assert(m.dom() =~= Set::<Seq<char>>::empty());
    } else {
        let t = s.drop_last();
        assert(keys_unique(t)) by {
            assert forall|i: int, j: int| 0 <= i < t.len() && 0 <= j < t.len() && i != j implies key_of(
                #[trigger] t[i],
            ) != key_of(#[trigger] t[j]) by {
                assert(t[i] == s[i] && t[j] == s[j]);
            }
        }
        lemma_dom_len(t);
        let k = key_of(s.last());
        assert(!map_of(t).dom().contains(k)) by {
            if has_key(t, k) {
                let j = choose|j: int| 0 <= j < t.len() && key_of(#[trigger] t[j]) == k;
                assert(t[j] == s[j]);
                assert(key_of(s[j]) != key_of(s[s.len() - 1]));
            }
        }
        assert(m.dom() =~= map_of(t).dom().insert(k)) by {
            assert forall|id: Seq<char>| m.dom().contains(id) implies map_of(t).dom().insert(k).contains(id) by {
                let j = choose|j: int| 0 <= j < s.len() && key_of(#[trigger] s[j]) == id;
                if j < s.len() - 1 {
                    assert(t[j] == s[j]);
                }
            }
            assert forall|id: Seq<char>| map_of(t).dom().insert(k).contains(id) implies m.dom().contains(id) by {
                if id != k {
                    let j = choose|j: int| 0 <= j < t.len() && key_of(#[trigger] t[j]) == id;
                    assert(t[j] == s[j]);
                } else {
                    assert(key_of(s[s.len() - 1]) == id);
                }
            }
        }
    }
}

} // verus!

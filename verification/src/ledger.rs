//! The instance ledger: the durable mapping from project name to the
//! last-known instance record.  This module holds the in-memory store and its
//! operations; reading and writing the ledger file is the caller's business,
//! and a missing file is simply an empty ledger.

use vstd::prelude::*;
use vstd::pervasive::VecAdditionalExecFns;
use vstd::string::StrSliceExecFns;

use crate::version::PostgresVersion;

verus! {

/// The last-known instance backing a project: the container handle, the
/// version it was created with, its host port, and its creation time.
#[derive(Debug, PartialEq)]
pub struct InstanceState {
    /// Opaque container handle from the runtime.
    pub container_id: String,
    /// Version the container was created with, recorded as a label.
    pub postgres_version: PostgresVersion,
    /// Host port the container publishes.
    pub port: u16,
    /// Creation time, in seconds since the Unix epoch.
    pub created_at: u64,
}

/// The mathematical value of an instance record.
pub struct InstanceView {
    pub container_id: Seq<char>,
    pub postgres_version: PostgresVersion,
    pub port: u16,
    pub created_at: u64,
}

impl View for InstanceState {
    type V = InstanceView;

    open spec fn view(&self) -> InstanceView {
        InstanceView {
            container_id: self.container_id@,
            postgres_version: self.postgres_version,
            port: self.port,
            created_at: self.created_at,
        }
    }
}

impl Clone for InstanceState {
    fn clone(&self) -> (r: Self)
        ensures
            r == *self,
    {
        InstanceState {
            container_id: self.container_id.clone(),
            postgres_version: self.postgres_version,
            port: self.port,
            created_at: self.created_at,
        }
    }
}

impl InstanceState {
    /// A fresh record for a newly created container.
    pub fn new(
        container_id: String,
        postgres_version: PostgresVersion,
        port: u16,
        created_at: u64,
    ) -> (r: Self)
        ensures
            r.container_id == container_id,
            r.postgres_version == postgres_version,
            r.port == port,
            r.created_at == created_at,
    {
        InstanceState { container_id, postgres_version, port, created_at }
    }
}

/// The map a list of ledger entries denotes; later entries win.
spec fn map_of(entries: Seq<(String, InstanceState)>) -> Map<Seq<char>, InstanceView>
    decreases entries.len(),
{
    if entries.len() == 0 {
        Map::empty()
    } else {
        map_of(entries.drop_last()).insert(entries.last().0@, entries.last().1@)
    }
}

/// True when no two entries carry the same project name.
spec fn distinct_names(entries: Seq<(String, InstanceState)>) -> bool {
    forall|i: int, j: int|
        0 <= i < j < entries.len() ==> (#[trigger] entries[i]).0@ != (#[trigger] entries[j]).0@
}

/// True when some entry carries the name `k`.
spec fn has_name(entries: Seq<(String, InstanceState)>, k: Seq<char>) -> bool {
    exists|i: int| 0 <= i < entries.len() && (#[trigger] entries[i]).0@ == k
}

/// The denoted map holds exactly the names the entries carry.
proof fn lemma_map_of_names(entries: Seq<(String, InstanceState)>)
    ensures
        forall|k: Seq<char>| #[trigger] map_of(entries).dom().contains(k) <==> has_name(entries, k),
    decreases entries.len(),
{
    if entries.len() > 0 {
        let dl = entries.drop_last();
        lemma_map_of_names(dl);
        assert forall|k: Seq<char>| #[trigger] map_of(entries).dom().contains(k) implies has_name(
            entries,
            k,
        ) by {
            if k == entries.last().0@ {
                assert(entries[entries.len() - 1].0@ == k);
            } else {
                assert(map_of(dl).dom().contains(k));
                assert(has_name(dl, k));
                let i = choose|i: int| 0 <= i < dl.len() && (#[trigger] dl[i]).0@ == k;
                assert(entries[i] == dl[i]);
                assert(entries[i].0@ == k);
            }
        }
        assert forall|k: Seq<char>| has_name(entries, k) implies #[trigger] map_of(
            entries,
        ).dom().contains(k) by {
            let i = choose|i: int| 0 <= i < entries.len() && (#[trigger] entries[i]).0@ == k;
            if i < entries.len() - 1 {
                assert(dl[i] == entries[i]);
                assert(has_name(dl, k));
                assert(map_of(dl).dom().contains(k));
            }
        }
    }
}

/// Under distinct names, each entry's value is the one the map holds.
proof fn lemma_map_of_value(entries: Seq<(String, InstanceState)>, i: int)
    requires
        distinct_names(entries),
        0 <= i < entries.len(),
    ensures
        map_of(entries).dom().contains(entries[i].0@),
        map_of(entries)[entries[i].0@] == entries[i].1@,
    decreases entries.len(),
{
    if i == entries.len() - 1 {
    } else {
        assert(entries.drop_last()[i] == entries[i]);
        lemma_map_of_value(entries.drop_last(), i);
        assert(entries[i].0@ != entries.last().0@);
    }
}

/// Replacing the entry that holds a name denotes a map insertion.
proof fn lemma_map_of_update(
    entries: Seq<(String, InstanceState)>,
    i: int,
    name: String,
    rec: InstanceState,
)
    requires
        distinct_names(entries),
        0 <= i < entries.len(),
        entries[i].0@ == name@,
    ensures
        map_of(entries.update(i, (name, rec))) =~= map_of(entries).insert(name@, rec@),
    decreases entries.len(),
{
    let u = entries.update(i, (name, rec));
    if i == entries.len() - 1 {
        assert(u.drop_last() =~= entries.drop_last());
        assert(u.last() == (name, rec));
    } else {
        assert(u.drop_last() =~= entries.drop_last().update(i, (name, rec)));
        assert(entries.drop_last()[i] == entries[i]);
        lemma_map_of_update(entries.drop_last(), i, name, rec);
        assert(u.last() == entries.last());
        assert(entries[i].0@ != entries.last().0@);
    }
}

/// Removing the entry that holds a name denotes a map removal.
proof fn lemma_map_of_removal(entries: Seq<(String, InstanceState)>, i: int)
    requires
        distinct_names(entries),
        0 <= i < entries.len(),
    ensures
        map_of(entries.remove(i)) =~= map_of(entries).remove(entries[i].0@),
    decreases entries.len(),
{
    let u = entries.remove(i);
    if i == entries.len() - 1 {
        assert(u =~= entries.drop_last());
        lemma_map_of_names(entries.drop_last());
        assert(!has_name(entries.drop_last(), entries[i].0@)) by {
            if has_name(entries.drop_last(), entries[i].0@) {
                let j = choose|j: int|
                    0 <= j < entries.drop_last().len() && (#[trigger] entries.drop_last()[j]).0@
                        == entries[i].0@;
                assert(entries[j] == entries.drop_last()[j]);
            }
        }
    } else {
        assert(u.drop_last() =~= entries.drop_last().remove(i));
        assert(entries.drop_last()[i] == entries[i]);
        lemma_map_of_removal(entries.drop_last(), i);
        assert(u.last() == entries.last());
        assert(entries[i].0@ != entries.last().0@);
    }
}

/// Compares two strings character by character.
fn str_eq(a: &str, b: &str) -> (r: bool)
    ensures
        r == (a@ == b@),
{
    let la = a.unicode_len();
    let lb = b.unicode_len();
    if la != lb {
        return false;
    }
    let mut i: usize = 0;
    while i < la
        invariant
            i <= la,
            la == a@.len(),
            la == b@.len(),
            forall|j: int| 0 <= j < i ==> a@[j] == b@[j],
        decreases la - i,
    {
        if a.get_char(i) != b.get_char(i) {
            return false;
        }
        i += 1;
    }
    proof {
        assert(a@ =~= b@);
    }
    true
}

/// The in-memory ledger: project name to instance record, at most one record
/// per name.  Loading and saving the backing document is left to the caller;
/// mutations here touch only this value.
#[derive(PartialEq)]
pub struct StateManager {
    instances: Vec<(String, InstanceState)>,
}

impl View for StateManager {
    type V = Map<Seq<char>, InstanceView>;

    closed spec fn view(&self) -> Map<Seq<char>, InstanceView> {
        map_of(self.instances@)
    }
}

impl StateManager {
    /// At most one record per project name.
    pub closed spec fn wf(self) -> bool {
        distinct_names(self.instances@)
    }

    /// An empty ledger.
    pub fn new() -> (r: Self)
        ensures
            r.wf(),
            r@ == Map::<Seq<char>, InstanceView>::empty(),
    {
        StateManager { instances: Vec::new() }
    }

    /// The position of the entry carrying a name, if there is one.
    fn find_index(&self, project_name: &str) -> (r: Option<usize>)
        ensures
            match r {
                Some(i) => i < self.instances@.len() && self.instances@[i as int].0@
                    == project_name@,
                None => !has_name(self.instances@, project_name@),
            },
    {
        let n = self.instances.len();
        let mut i: usize = 0;
        while i < n
            invariant
                i <= n,
                n == self.instances@.len(),
                forall|j: int| 0 <= j < i ==> (#[trigger] self.instances@[j]).0@ != project_name@,
            decreases n - i,
        {
            if str_eq(self.instances[i].0.as_str(), project_name) {
                return Some(i);
            }
            i += 1;
        }
        None
    }

    /// The record for a project, if the ledger holds one.
    pub fn get(&self, project_name: &str) -> (r: Option<InstanceState>)
        requires
            self.wf(),
        ensures
            match r {
                Some(rec) => self@.dom().contains(project_name@) && rec@ == self@[project_name@],
                None => !self@.dom().contains(project_name@),
            },
    {
        proof {
            lemma_map_of_names(self.instances@);
        }
        match self.find_index(project_name) {
            Some(i) => {
                proof {
                    lemma_map_of_value(self.instances@, i as int);
                }
                Some(self.instances[i].1.clone())
            },
            None => None,
        }
    }

    /// Writes the record for a project, replacing any previous one wholesale.
    pub fn upsert(&mut self, project_name: String, state: InstanceState)
        requires
            old(self).wf(),
        ensures
            final(self).wf(),
            final(self)@ == old(self)@.insert(project_name@, state@),
    {
        let found = self.find_index(project_name.as_str());
        let ghost entries = self.instances@;
        match found {
            Some(i) => {
                proof {
                    lemma_map_of_update(entries, i as int, project_name, state);
                }
                self.instances.set(i, (project_name, state));
                proof {
                    assert forall|p: int, q: int|
                        0 <= p < q < self.instances@.len() implies (
                    #[trigger] self.instances@[p]).0@ != (#[trigger] self.instances@[q]).0@ by {
                        assert(entries[p].0@ != entries[q].0@ || p == i || q == i);
                    }
                }
            },
            None => {
                self.instances.push((project_name, state));
                proof {
                    assert(self.instances@.drop_last() =~= entries);
                    assert forall|p: int, q: int|
                        0 <= p < q < self.instances@.len() implies (
                    #[trigger] self.instances@[p]).0@ != (#[trigger] self.instances@[q]).0@ by {
                        if q < entries.len() {
                            assert(entries[p].0@ != entries[q].0@);
                        } else {
                            assert(self.instances@[p] == entries[p]);
                        }
                    }
                }
            },
        }
    }

    /// Drops the record for a project, returning it if one was there.
    pub fn remove(&mut self, project_name: &str) -> (r: Option<InstanceState>)
        requires
            old(self).wf(),
        ensures
            final(self).wf(),
            final(self)@ == old(self)@.remove(project_name@),
            match r {
                Some(rec) => old(self)@.dom().contains(project_name@) && rec@ == old(
                    self,
                )@[project_name@],
                None => !old(self)@.dom().contains(project_name@),
            },
    {
        proof {
            lemma_map_of_names(self.instances@);
        }
        let found = self.find_index(project_name);
        let ghost entries = self.instances@;
        match found {
            Some(i) => {
                proof {
                    lemma_map_of_value(entries, i as int);
                    lemma_map_of_removal(entries, i as int);
                }
                let entry = self.instances.remove(i);
                proof {
                    assert forall|p: int, q: int|
                        0 <= p < q < self.instances@.len() implies (
                    #[trigger] self.instances@[p]).0@ != (#[trigger] self.instances@[q]).0@ by {
                        let pp = if p < i { p } else { p + 1 };
                        let qq = if q < i { q } else { q + 1 };
                        assert(self.instances@[p] == entries[pp]);
                        assert(self.instances@[q] == entries[qq]);
                    }
                }
                Some(entry.1)
            },
            None => {
                proof {
                    assert(self@ =~= self@.remove(project_name@));
                }
                None
            },
        }
    }

    /// The highest port any record holds; nothing when the ledger is empty.
    pub fn get_highest_used_port(&self) -> (r: Option<u16>)
        requires
            self.wf(),
        ensures
            match r {
                Some(p) => (exists|k: Seq<char>|
                    #[trigger] self@.dom().contains(k) && self@[k].port == p) && forall|
                    k: Seq<char>,
                | #[trigger] self@.dom().contains(k) ==> self@[k].port <= p,
                None => self@ == Map::<Seq<char>, InstanceView>::empty(),
            },
    {
        let n = self.instances.len();
        if n == 0 {
            return None;
        }
        let mut best: u16 = self.instances[0].1.port;
        let mut i: usize = 1;
        while i < n
            invariant
                1 <= i <= n,
                n == self.instances@.len(),
                exists|j: int| 0 <= j < i && (#[trigger] self.instances@[j]).1@.port == best,
                forall|j: int| 0 <= j < i ==> (#[trigger] self.instances@[j]).1@.port <= best,
            decreases n - i,
        {
            if self.instances[i].1.port > best {
                best = self.instances[i].1.port;
            }
            i += 1;
        }
        proof {
            lemma_map_of_names(self.instances@);
            let j = choose|j: int| 0 <= j < n && (#[trigger] self.instances@[j]).1@.port == best;
            lemma_map_of_value(self.instances@, j);
            assert(self@.dom().contains(self.instances@[j].0@) && self@[self.instances@[j].0@].port
                == best);
            assert forall|k: Seq<char>| #[trigger] self@.dom().contains(k) implies self@[k].port
                <= best by {
                let m = choose|m: int|
                    0 <= m < self.instances@.len() && (#[trigger] self.instances@[m]).0@ == k;
                lemma_map_of_value(self.instances@, m);
            }
        }
        Some(best)
    }

    /// All records, as (name, record) pairs with pairwise-distinct names:
    /// exactly the ledger's contents.
    pub fn entries(&self) -> (r: Vec<(String, InstanceState)>)
        requires
            self.wf(),
        ensures
            forall|i: int|
                0 <= i < r@.len() ==> self@.dom().contains((#[trigger] r@[i]).0@)
                    && self@[r@[i].0@] == r@[i].1@,
            forall|k: Seq<char>|
                #[trigger] self@.dom().contains(k) ==> exists|i: int|
                    0 <= i < r@.len() && (#[trigger] r@[i]).0@ == k,
            forall|i: int, j: int|
                0 <= i < j < r@.len() ==> (#[trigger] r@[i]).0@ != (#[trigger] r@[j]).0@,
    {
        let n = self.instances.len();
        let mut r: Vec<(String, InstanceState)> = Vec::new();
        let mut i: usize = 0;
        while i < n
            invariant
                i <= n,
                n == self.instances@.len(),
                self.wf(),
                r@.len() == i,
                forall|j: int| 0 <= j < i ==> (#[trigger] r@[j]).0@ == self.instances@[j].0@,
                forall|j: int| 0 <= j < i ==> (#[trigger] r@[j]).1 == self.instances@[j].1,
            decreases n - i,
        {
            let name = self.instances[i].0.clone();
            let record = self.instances[i].1.clone();
            r.push((name, record));
            i += 1;
        }
        proof {
            lemma_map_of_names(self.instances@);
            assert forall|i: int|
                0 <= i < r@.len() implies self@.dom().contains((#[trigger] r@[i]).0@)
                && self@[r@[i].0@] == r@[i].1@ by {
                lemma_map_of_value(self.instances@, i);
            }
            assert forall|k: Seq<char>| #[trigger] self@.dom().contains(k) implies exists|i: int|
                0 <= i < r@.len() && (#[trigger] r@[i]).0@ == k by {
                let m = choose|m: int|
                    0 <= m < self.instances@.len() && (#[trigger] self.instances@[m]).0@ == k;
                assert(r@[m].0@ == k);
            }
        }
        r
    }

    /// The ports the ledger's records hold.
    pub fn ports(&self) -> (r: Vec<u16>)
        requires
            self.wf(),
        ensures
            forall|p: u16|
                #[trigger] r@.contains(p) <==> exists|k: Seq<char>|
                    #[trigger] self@.dom().contains(k) && self@[k].port == p,
    {
        let n = self.instances.len();
        let mut r: Vec<u16> = Vec::new();
        let mut i: usize = 0;
        while i < n
            invariant
                i <= n,
                n == self.instances@.len(),
                forall|p: u16|
                    #[trigger] r@.contains(p) <==> exists|j: int|
                        0 <= j < i && (#[trigger] self.instances@[j]).1@.port == p,
            decreases n - i,
        {
            let ghost prev = r@;
            r.push(self.instances[i].1.port);
            proof {
                assert forall|p: u16| #[trigger] r@.contains(p) implies exists|j: int|
                    0 <= j < i + 1 && (#[trigger] self.instances@[j]).1@.port == p by {
                    let idx = choose|idx: int| 0 <= idx < r@.len() && r@[idx] == p;
                    if idx < prev.len() {
                        assert(prev[idx] == p);
                        assert(prev.contains(p));
                        let j = choose|j: int|
                            0 <= j < i && (#[trigger] self.instances@[j]).1@.port == p;
                        assert(0 <= j < i + 1 && self.instances@[j].1@.port == p);
                    } else {
                        assert(self.instances@[i as int].1@.port == p);
                    }
                }
                assert forall|p: u16|
                    (exists|j: int|
                        0 <= j < i + 1 && (#[trigger] self.instances@[j]).1@.port
                            == p) implies #[trigger] r@.contains(p) by {
                    let j = choose|j: int|
                        0 <= j < i + 1 && (#[trigger] self.instances@[j]).1@.port == p;
                    if j < i {
                        assert(prev.contains(p));
                        let idx = choose|idx: int| 0 <= idx < prev.len() && prev[idx] == p;
                        assert(r@[idx] == p);
                    } else {
                        assert(r@[r@.len() - 1] == p);
                    }
                }
            }
            i += 1;
        }
        proof {
            lemma_map_of_names(self.instances@);
            assert forall|p: u16| #[trigger] r@.contains(p) implies exists|k: Seq<char>|
                #[trigger] self@.dom().contains(k) && self@[k].port == p by {
                let j = choose|j: int| 0 <= j < n && (#[trigger] self.instances@[j]).1@.port == p;
                lemma_map_of_value(self.instances@, j);
                assert(self@.dom().contains(self.instances@[j].0@)
                    && self@[self.instances@[j].0@].port == p);
            }
            assert forall|p: u16|
                (exists|k: Seq<char>|
                    #[trigger] self@.dom().contains(k) && self@[k].port
                        == p) implies #[trigger] r@.contains(p) by {
                let k = choose|k: Seq<char>|
                    #[trigger] self@.dom().contains(k) && self@[k].port == p;
                assert(has_name(self.instances@, k));
                let m = choose|m: int|
                    0 <= m < self.instances@.len() && (#[trigger] self.instances@[m]).0@ == k;
                lemma_map_of_value(self.instances@, m);
            }
        }
        r
    }
}

} // verus!

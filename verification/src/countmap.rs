//! Count tables and the connection table, kept as association lists with
//! unique keys and viewed as maps. Insertion order of first appearance
//! is preserved, which fixes the display order of ties.

use vstd::prelude::*;
use vstd::map::*;
use crate::stats::ConnectionFlow;

verus! {

/// Whether some entry of `s` has key view `k`.
pub open spec fn str_has_key(s: Seq<(String, u64)>, k: Seq<char>) -> bool {
    exists|i: int| 0 <= i < s.len() && #[trigger] s[i].0@ == k
}

/// The count stored under key view `k`.
pub open spec fn str_value_of(s: Seq<(String, u64)>, k: Seq<char>) -> int {
    s[choose|i: int| 0 <= i < s.len() && #[trigger] s[i].0@ == k].1 as int
}

/// No two entries share a key.
pub open spec fn str_unique_keys(s: Seq<(String, u64)>) -> bool {
    forall|i: int, j: int| 0 <= i < j < s.len() ==> (#[trigger] s[i].0@) != (#[trigger] s[j].0@)
}

/// A map bumped at one key: the count rises by one, from zero for an
/// absent key.
pub open spec fn bumped(m: Map<Seq<char>, int>, k: Seq<char>) -> Map<Seq<char>, int> {
    m.insert(
        k,
        if m.contains_key(k) {
            m[k] + 1
        } else {
            1
        },
    )
}

proof fn lemma_str_value_unique(s: Seq<(String, u64)>, k: Seq<char>, i: int)
    requires
        str_unique_keys(s),
        0 <= i < s.len(),
        s[i].0@ == k,
    ensures
        str_has_key(s, k),
        str_value_of(s, k) == s[i].1 as int,
{
    assert(str_has_key(s, k));
    let j = choose|j: int| 0 <= j < s.len() && #[trigger] s[j].0@ == k;
    assert(j == i);
}

/// A count table with text keys, e.g. protocol names or source
/// addresses mapped to how many records carried them.
pub struct StrCountMap {
    entries: Vec<(String, u64)>,
}

impl View for StrCountMap {
    type V = Map<Seq<char>, int>;

    closed spec fn view(&self) -> Map<Seq<char>, int> {
        Map::new(
            |k: Seq<char>| str_has_key(self.entries@, k),
            |k: Seq<char>| str_value_of(self.entries@, k),
        )
    }
}

impl StrCountMap {
    /// The entries in first-appearance order.
    pub closed spec fn entry_seq(&self) -> Seq<(String, u64)> {
        self.entries@
    }

    /// Keys are unique.
    pub closed spec fn wf(&self) -> bool {
        str_unique_keys(self.entries@)
    }

    /// An empty table.
    pub fn new() -> (r: StrCountMap)
        ensures
            r.wf(),
            r@ == Map::<Seq<char>, int>::empty(),
            r.entry_seq() == Seq::<(String, u64)>::empty(),
    {
        let r = StrCountMap { entries: Vec::new() };
        proof {
                assert(r@ =~= Map::<Seq<char>, int>::empty());
        }
        r
    }

    /// The entries in first-appearance order.
    pub fn entries(&self) -> (r: &Vec<(String, u64)>)
        ensures
            r@ == self.entry_seq(),
    {
        &self.entries
    }

    /// Every entry is in the map, under its own key.
    pub proof fn lemma_entries_match_view(&self)
        requires
            self.wf(),
        ensures
            forall|i: int|
                0 <= i < self.entry_seq().len() ==> self@.contains_key(
                    #[trigger] self.entry_seq()[i].0@,
                ) && self@[self.entry_seq()[i].0@] == self.entry_seq()[i].1 as int,
    {
        assert forall|i: int| 0 <= i < self.entry_seq().len() implies self@.contains_key(
            #[trigger] self.entry_seq()[i].0@,
        ) && self@[self.entry_seq()[i].0@] == self.entry_seq()[i].1 as int by {
            lemma_str_value_unique(self.entries@, self.entries@[i].0@, i);
        }
    }

    /// Raises the count under `key` by one, starting it at one when the
    /// key is new. A new key takes the last position.
    pub fn increment(&mut self, key: &str)
        requires
            old(self).wf(),
            old(self)@.contains_key(key@) ==> old(self)@[key@] < u64::MAX,
        ensures
            final(self).wf(),
            final(self)@ == bumped(old(self)@, key@),
            !old(self)@.contains_key(key@) ==> {
                &&& final(self).entry_seq().len() == old(self).entry_seq().len() + 1
                &&& final(self).entry_seq().last().0@ == key@
                &&& final(self).entry_seq().last().1 == 1u64
                &&& final(self).entry_seq().drop_last() == old(self).entry_seq()
            },
            old(self)@.contains_key(key@) ==> final(self).entry_seq().len() == old(self).entry_seq().len(),
    {
        let ghost old_entries = self.entries@;
        let n = self.entries.len();
        let mut i: usize = 0;
        while i < n
            invariant
                i <= n,
                n == self.entries@.len(),
                str_unique_keys(self.entries@),
                self.entries@ == old_entries,
                old_entries == old(self).entry_seq(),
                old(self)@.contains_key(key@) ==> old(self)@[key@] < u64::MAX,
                self@ == old(self)@,
                forall|j: int| 0 <= j < i ==> (#[trigger] self.entries@[j].0@) != key@,
            decreases n - i,
        {
            let hit = crate::strutil::str_eq(self.entries[i].0.as_str(), key);
            if hit {
                proof {
                    lemma_str_value_unique(self.entries@, key@, i as int);
                }
                let name = self.entries[i].0.clone();
                let count = self.entries[i].1;
                self.entries.set(i, (name, count + 1));
                proof {
                    assert(self.entries@[i as int].0@ == key@);
                    assert(str_unique_keys(self.entries@));
                    assert forall|k2: Seq<char>| #[trigger]
                        bumped(old(self)@, key@).contains_key(k2) implies self@.contains_key(k2)
                        && self@[k2] == bumped(old(self)@, key@)[k2] by {
                        if k2 == key@ {
                            lemma_str_value_unique(self.entries@, key@, i as int);
                        } else {
                            let j = choose|j: int|
                                0 <= j < old_entries.len() && #[trigger] old_entries[j].0@ == k2;
                            assert(self.entries@[j].0@ == k2);
                            lemma_str_value_unique(self.entries@, k2, j);
                        }
                    }
                    assert forall|k2: Seq<char>| #[trigger] self@.contains_key(k2) implies bumped(
                        old(self)@,
                        key@,
                    ).contains_key(k2) by {
                        let j = choose|j: int|
                            0 <= j < self.entries@.len() && #[trigger] self.entries@[j].0@ == k2;
                        if j == i as int {
                        } else {
                            assert(old_entries[j].0@ == k2);
                        }
                    }
                    assert(self@ =~= bumped(old(self)@, key@));
                    assert(self.entries@.len() == old(self).entry_seq().len());
                }
                return ;
            }
            i = i + 1;
        }
        proof {
            assert(!str_has_key(self.entries@, key@));
        }
        self.entries.push((key.to_owned(), 1));
        proof {
            let s = self.entries@;
            let last = s.len() - 1;
            assert(s[last].0@ == key@);
            assert(str_unique_keys(s));
            assert forall|k2: Seq<char>| #[trigger]
                bumped(old(self)@, key@).contains_key(k2) implies self@.contains_key(k2)
                && self@[k2] == bumped(old(self)@, key@)[k2] by {
                if k2 == key@ {
                    lemma_str_value_unique(s, key@, last);
                } else {
                    let j = choose|j: int|
                        0 <= j < old_entries.len() && #[trigger] old_entries[j].0@ == k2;
                    assert(s[j].0@ == k2);
                    lemma_str_value_unique(s, k2, j);
                }
            }
            assert forall|k2: Seq<char>| #[trigger] self@.contains_key(k2) implies bumped(
                old(self)@,
                key@,
            ).contains_key(k2) by {
                let j = choose|j: int| 0 <= j < s.len() && #[trigger] s[j].0@ == k2;
                if j == last {
                } else {
                    assert(old_entries[j].0@ == k2);
                }
            }
            assert(self@ =~= bumped(old(self)@, key@));
            assert(self.entries@ =~= old_entries.push((s.last().0, 1u64)));
        }
    }
}

/// Whether some entry of `s` has key `k`.
pub open spec fn port_has_key(s: Seq<(u16, u64)>, k: u16) -> bool {
    exists|i: int| 0 <= i < s.len() && (#[trigger] s[i]).0 == k
}

/// The count stored under key `k`.
pub open spec fn port_value_of(s: Seq<(u16, u64)>, k: u16) -> int {
    s[choose|i: int| 0 <= i < s.len() && (#[trigger] s[i]).0 == k].1 as int
}

/// No two entries share a key.
pub open spec fn port_unique_keys(s: Seq<(u16, u64)>) -> bool {
    forall|i: int, j: int| 0 <= i < j < s.len() ==> (#[trigger] s[i]).0 != (#[trigger] s[j]).0
}

/// A map bumped at one key: the count rises by one, from zero for an
/// absent key.
pub open spec fn port_bumped(m: Map<u16, int>, k: u16) -> Map<u16, int> {
    m.insert(
        k,
        if m.contains_key(k) {
            m[k] + 1
        } else {
            1
        },
    )
}

proof fn lemma_port_value_unique(s: Seq<(u16, u64)>, k: u16, i: int)
    requires
        port_unique_keys(s),
        0 <= i < s.len(),
        s[i].0 == k,
    ensures
        port_has_key(s, k),
        port_value_of(s, k) == s[i].1 as int,
{
    assert(port_has_key(s, k));
    let j = choose|j: int| 0 <= j < s.len() && (#[trigger] s[j]).0 == k;
    assert(j == i);
}

/// A count table with port keys.
pub struct PortCountMap {
    entries: Vec<(u16, u64)>,
}

impl View for PortCountMap {
    type V = Map<u16, int>;

    closed spec fn view(&self) -> Map<u16, int> {
        Map::new(
            |k: u16| port_has_key(self.entries@, k),
            |k: u16| port_value_of(self.entries@, k),
        )
    }
}

impl PortCountMap {
    /// The entries in first-appearance order.
    pub closed spec fn entry_seq(&self) -> Seq<(u16, u64)> {
        self.entries@
    }

    /// Keys are unique.
    pub closed spec fn wf(&self) -> bool {
        port_unique_keys(self.entries@)
    }

    /// An empty table.
    pub fn new() -> (r: PortCountMap)
        ensures
            r.wf(),
            r@ == Map::<u16, int>::empty(),
            r.entry_seq() == Seq::<(u16, u64)>::empty(),
    {
        let r = PortCountMap { entries: Vec::new() };
        proof {
                assert(r@ =~= Map::<u16, int>::empty());
        }
        r
    }

    /// The entries in first-appearance order.
    pub fn entries(&self) -> (r: &Vec<(u16, u64)>)
        ensures
            r@ == self.entry_seq(),
    {
        &self.entries
    }

    /// Every entry is in the map, under its own key.
    pub proof fn lemma_entries_match_view(&self)
        requires
            self.wf(),
        ensures
            forall|i: int|
                0 <= i < self.entry_seq().len() ==> self@.contains_key(
                    (#[trigger] self.entry_seq()[i]).0,
                ) && self@[self.entry_seq()[i].0] == self.entry_seq()[i].1 as int,
    {
        assert forall|i: int| 0 <= i < self.entry_seq().len() implies self@.contains_key(
            (#[trigger] self.entry_seq()[i]).0,
        ) && self@[self.entry_seq()[i].0] == self.entry_seq()[i].1 as int by {
            lemma_port_value_unique(self.entries@, self.entries@[i].0, i);
        }
    }

    /// Raises the count under `key` by one, starting it at one when the
    /// key is new.
    pub fn increment(&mut self, key: u16)
        requires
            old(self).wf(),
            old(self)@.contains_key(key) ==> old(self)@[key] < u64::MAX,
        ensures
            final(self).wf(),
            final(self)@ == port_bumped(old(self)@, key),
    {
        let ghost old_entries = self.entries@;
        let n = self.entries.len();
        let mut i: usize = 0;
        while i < n
            invariant
                i <= n,
                n == self.entries@.len(),
                port_unique_keys(self.entries@),
                self.entries@ == old_entries,
                old_entries == old(self).entry_seq(),
                old(self)@.contains_key(key) ==> old(self)@[key] < u64::MAX,
                self@ == old(self)@,
                forall|j: int| 0 <= j < i ==> (#[trigger] self.entries@[j]).0 != key,
            decreases n - i,
        {
            if self.entries[i].0 == key {
                proof {
                    lemma_port_value_unique(self.entries@, key, i as int);
                }
                let count = self.entries[i].1;
                self.entries.set(i, (key, count + 1));
                proof {
                    assert(port_unique_keys(self.entries@));
                    assert forall|k2: u16| #[trigger]
                        port_bumped(old(self)@, key).contains_key(k2) implies self@.contains_key(
                        k2,
                    ) && self@[k2] == port_bumped(old(self)@, key)[k2] by {
                        if k2 == key {
                            lemma_port_value_unique(self.entries@, key, i as int);
                        } else {
                            let j = choose|j: int|
                                0 <= j < old_entries.len() && (#[trigger] old_entries[j]).0 == k2;
                            assert(self.entries@[j].0 == k2);
                            lemma_port_value_unique(self.entries@, k2, j);
                        }
                    }
                    assert forall|k2: u16| #[trigger] self@.contains_key(k2) implies port_bumped(
                        old(self)@,
                        key,
                    ).contains_key(k2) by {
                        let j = choose|j: int|
                            0 <= j < self.entries@.len() && (#[trigger] self.entries@[j]).0 == k2;
                        if j != i as int {
                            assert(old_entries[j].0 == k2);
                        }
                    }
                    assert(self@ =~= port_bumped(old(self)@, key));
                }
                return ;
            }
            i = i + 1;
        }
        proof {
            assert(!port_has_key(self.entries@, key));
        }
        self.entries.push((key, 1));
        proof {
            let s = self.entries@;
            let last = s.len() - 1;
            assert(port_unique_keys(s));
            assert forall|k2: u16| #[trigger]
                port_bumped(old(self)@, key).contains_key(k2) implies self@.contains_key(k2)
                && self@[k2] == port_bumped(old(self)@, key)[k2] by {
                if k2 == key {
                    lemma_port_value_unique(s, key, last);
                } else {
                    let j = choose|j: int|
                        0 <= j < old_entries.len() && (#[trigger] old_entries[j]).0 == k2;
                    assert(s[j].0 == k2);
                    lemma_port_value_unique(s, k2, j);
                }
            }
            assert forall|k2: u16| #[trigger] self@.contains_key(k2) implies port_bumped(
                old(self)@,
                key,
            ).contains_key(k2) by {
                let j = choose|j: int| 0 <= j < s.len() && (#[trigger] s[j]).0 == k2;
                if j != last {
                    assert(old_entries[j].0 == k2);
                }
            }
            assert(self@ =~= port_bumped(old(self)@, key));
        }
    }
}

/// Whether some entry of `s` has key view `k`.
pub open spec fn flow_has_key(s: Seq<(String, ConnectionFlow)>, k: Seq<char>) -> bool {
    exists|i: int| 0 <= i < s.len() && #[trigger] s[i].0@ == k
}

/// The flow stored under key view `k`.
pub open spec fn flow_value_of(s: Seq<(String, ConnectionFlow)>, k: Seq<char>) -> ConnectionFlow {
    s[choose|i: int| 0 <= i < s.len() && #[trigger] s[i].0@ == k].1
}

/// No two entries share a key.
pub open spec fn flow_unique_keys(s: Seq<(String, ConnectionFlow)>) -> bool {
    forall|i: int, j: int| 0 <= i < j < s.len() ==> (#[trigger] s[i].0@) != (#[trigger] s[j].0@)
}

proof fn lemma_flow_value_unique(s: Seq<(String, ConnectionFlow)>, k: Seq<char>, i: int)
    requires
        flow_unique_keys(s),
        0 <= i < s.len(),
        s[i].0@ == k,
    ensures
        flow_has_key(s, k),
        flow_value_of(s, k) == s[i].1,
{
    assert(flow_has_key(s, k));
    let j = choose|j: int| 0 <= j < s.len() && #[trigger] s[j].0@ == k;
    assert(j == i);
}

/// The connection table: flow keys mapped to their aggregated flows, in
/// first-appearance order.
pub struct FlowMap {
    entries: Vec<(String, ConnectionFlow)>,
}

impl View for FlowMap {
    type V = Map<Seq<char>, ConnectionFlow>;

    closed spec fn view(&self) -> Map<Seq<char>, ConnectionFlow> {
        Map::new(
            |k: Seq<char>| flow_has_key(self.entries@, k),
            |k: Seq<char>| flow_value_of(self.entries@, k),
        )
    }
}

impl FlowMap {
    /// The entries in first-appearance order.
    pub closed spec fn entry_seq(&self) -> Seq<(String, ConnectionFlow)> {
        self.entries@
    }

    /// Keys are unique.
    pub closed spec fn wf(&self) -> bool {
        flow_unique_keys(self.entries@)
    }

    /// An empty table.
    pub fn new() -> (r: FlowMap)
        ensures
            r.wf(),
            r@ == Map::<Seq<char>, ConnectionFlow>::empty(),
            r.entry_seq() == Seq::<(String, ConnectionFlow)>::empty(),
    {
        let r = FlowMap { entries: Vec::new() };
        proof {
                assert(r@ =~= Map::<Seq<char>, ConnectionFlow>::empty());
        }
        r
    }

    /// How many flows the table holds.
    pub fn len(&self) -> (n: usize)
        ensures
            n == self.entry_seq().len(),
    {
        self.entries.len()
    }

    /// The entries in first-appearance order.
    pub fn entries(&self) -> (r: &Vec<(String, ConnectionFlow)>)
        ensures
            r@ == self.entry_seq(),
    {
        &self.entries
    }

    /// Every entry is in the map, under its own key.
    pub proof fn lemma_entries_match_view(&self)
        requires
            self.wf(),
        ensures
            forall|i: int|
                0 <= i < self.entry_seq().len() ==> self@.contains_key(
                    #[trigger] self.entry_seq()[i].0@,
                ) && self@[self.entry_seq()[i].0@] == self.entry_seq()[i].1,
    {
        assert forall|i: int| 0 <= i < self.entry_seq().len() implies self@.contains_key(
            #[trigger] self.entry_seq()[i].0@,
        ) && self@[self.entry_seq()[i].0@] == self.entry_seq()[i].1 by {
            lemma_flow_value_unique(self.entries@, self.entries@[i].0@, i);
        }
    }

    /// Looks the key up.
    pub fn lookup(&self, key: &str) -> (r: Option<ConnectionFlow>)
        requires
            self.wf(),
        ensures
            match r {
                Some(flow) => self@.contains_key(key@) && flow == self@[key@],
                None => !self@.contains_key(key@),
            },
    {
        let n = self.entries.len();
        let mut i: usize = 0;
        while i < n
            invariant
                i <= n,
                n == self.entries@.len(),
                flow_unique_keys(self.entries@),
                forall|j: int| 0 <= j < i ==> (#[trigger] self.entries@[j].0@) != key@,
            decreases n - i,
        {
            if crate::strutil::str_eq(self.entries[i].0.as_str(), key) {
                proof {
                    lemma_flow_value_unique(self.entries@, key@, i as int);
                }
                return Some(self.entries[i].1.clone_flow());
            }
            i = i + 1;
        }
        proof {
            assert(!flow_has_key(self.entries@, key@));
        }
        None
    }

    /// Stores `flow` under `key`, replacing what was there or appending
    /// a new entry.
    pub fn store(&mut self, key: &str, flow: ConnectionFlow)
        requires
            old(self).wf(),
        ensures
            final(self).wf(),
            final(self)@ == old(self)@.insert(key@, flow),
            final(self).entry_seq().len() == if old(self)@.contains_key(key@) {
                old(self).entry_seq().len() as int
            } else {
                old(self).entry_seq().len() + 1int
            },
    {
        let ghost old_entries = self.entries@;
        let n = self.entries.len();
        let mut i: usize = 0;
        while i < n
            invariant
                i <= n,
                n == self.entries@.len(),
                flow_unique_keys(self.entries@),
                self.entries@ == old_entries,
                old_entries == old(self).entry_seq(),
                self@ == old(self)@,
                forall|j: int| 0 <= j < i ==> (#[trigger] self.entries@[j].0@) != key@,
            decreases n - i,
        {
            if crate::strutil::str_eq(self.entries[i].0.as_str(), key) {
                proof {
                    lemma_flow_value_unique(self.entries@, key@, i as int);
                }
                let name = self.entries[i].0.clone();
                self.entries.set(i, (name, flow));
                proof {
                    assert(self.entries@[i as int].0@ == key@);
                    assert(flow_unique_keys(self.entries@));
                    assert forall|k2: Seq<char>| #[trigger]
                        old(self)@.insert(key@, flow).contains_key(k2) implies self@.contains_key(
                        k2,
                    ) && self@[k2] == old(self)@.insert(key@, flow)[k2] by {
                        if k2 == key@ {
                            lemma_flow_value_unique(self.entries@, key@, i as int);
                        } else {
                            let j = choose|j: int|
                                0 <= j < old_entries.len() && #[trigger] old_entries[j].0@ == k2;
                            assert(self.entries@[j].0@ == k2);
                            lemma_flow_value_unique(self.entries@, k2, j);
                        }
                    }
                    assert forall|k2: Seq<char>| #[trigger] self@.contains_key(k2) implies old(
                        self,
                    )@.insert(key@, flow).contains_key(k2) by {
                        let j = choose|j: int|
                            0 <= j < self.entries@.len() && #[trigger] self.entries@[j].0@ == k2;
                        if j != i as int {
                            assert(old_entries[j].0@ == k2);
                        }
                    }
                    assert(self@ =~= old(self)@.insert(key@, flow));
                    assert(old(self)@.contains_key(key@));
                    assert(self.entries@.len() == old(self).entry_seq().len());
                }
                return ;
            }
            i = i + 1;
        }
        proof {
            assert(!flow_has_key(self.entries@, key@));
        }
        self.entries.push((key.to_owned(), flow));
        proof {
            let s = self.entries@;
            let last = s.len() - 1;
            assert(s[last].0@ == key@);
            assert(flow_unique_keys(s));
            assert forall|k2: Seq<char>| #[trigger]
                old(self)@.insert(key@, flow).contains_key(k2) implies self@.contains_key(k2)
                && self@[k2] == old(self)@.insert(key@, flow)[k2] by {
                if k2 == key@ {
                    lemma_flow_value_unique(s, key@, last);
                } else {
                    let j = choose|j: int|
                        0 <= j < old_entries.len() && #[trigger] old_entries[j].0@ == k2;
                    assert(s[j].0@ == k2);
                    lemma_flow_value_unique(s, k2, j);
                }
            }
            assert forall|k2: Seq<char>| #[trigger] self@.contains_key(k2) implies old(
                self,
            )@.insert(key@, flow).contains_key(k2) by {
                let j = choose|j: int| 0 <= j < s.len() && #[trigger] s[j].0@ == k2;
                if j != last {
                    assert(old_entries[j].0@ == k2);
                }
            }
            assert(self@ =~= old(self)@.insert(key@, flow));
        }
    }
}

} // verus!

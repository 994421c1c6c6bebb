//! The server's table from connection IDs to the clients that own them.

use vstd::prelude::*;
use crate::bytes::bytes_equal;

verus! {

/// One connection ID and the client it routes to.
pub struct CidEntry {
    pub cid: Vec<u8>,
    pub client: u64,
}

/// The map that a sequence of entries spells when later entries win.
pub open spec fn entries_map(s: Seq<CidEntry>) -> Map<Seq<u8>, u64>
    decreases s.len(),
{
    if s.len() == 0 {
        Map::empty()
    } else {
        entries_map(s.drop_last()).insert(s.last().cid@, s.last().client)
    }
}

/// No connection ID occurs twice.
pub open spec fn distinct_cids(s: Seq<CidEntry>) -> bool {
    forall|i: int, j: int| 0 <= i < j < s.len() ==> (#[trigger] s[i]).cid@ != (#[trigger] s[j]).cid@
}

/// Some entry carries the connection ID `k`.
pub open spec fn has_cid(s: Seq<CidEntry>, k: Seq<u8>) -> bool {
    exists|i: int| 0 <= i < s.len() && (#[trigger] s[i]).cid@ == k
}

/// How many entries route to `client`.
pub open spec fn count_owned(s: Seq<CidEntry>, client: u64) -> nat
    decreases s.len(),
{
    if s.len() == 0 {
        0
    } else {
        count_owned(s.drop_last(), client) + if s.last().client == client {
            1nat
        } else {
            0nat
        }
    }
}

/// The keys of the map are the connection IDs of the entries.
pub proof fn lemma_map_keys(s: Seq<CidEntry>)
    ensures
        forall|k: Seq<u8>| #[trigger] entries_map(s).contains_key(k) <==> has_cid(s, k),
        entries_map(s).dom().finite(),
    decreases s.len(),
{
    if s.len() > 0 {
        let t = s.drop_last();
        lemma_map_keys(t);
        assert forall|k: Seq<u8>| #[trigger] entries_map(s).contains_key(k) <==> has_cid(
            s,
            k,
        ) by {
            if has_cid(s, k) {
                let i = choose|i: int| 0 <= i < s.len() && (#[trigger] s[i]).cid@ == k;
                if i < s.len() - 1 {
                    assert(t[i].cid@ == k);
                    assert(has_cid(t, k));
                }
            }
            if entries_map(s).contains_key(k) {
                if k == s.last().cid@ {
                    assert(s[s.len() - 1].cid@ == k);
                } else {
                    assert(has_cid(t, k));
                    let i = choose|i: int| 0 <= i < t.len() && (#[trigger] t[i]).cid@ == k;
                    assert(s[i].cid@ == k);
                }
            }
        }
    }
}

/// With distinct connection IDs, each entry is what the map holds for its
/// connection ID, and the map has as many keys as there are entries.
pub proof fn lemma_map_values(s: Seq<CidEntry>)
    requires
        distinct_cids(s),
    ensures
        forall|i: int|
            0 <= i < s.len() ==> entries_map(s).contains_key((#[trigger] s[i]).cid@)
                && entries_map(s)[s[i].cid@] == s[i].client,
        entries_map(s).dom().len() == s.len(),
    decreases s.len(),
{
    lemma_map_keys(s);
    if s.len() > 0 {
        let t = s.drop_last();
        assert(distinct_cids(t)) by {
            assert forall|i: int, j: int| 0 <= i < j < t.len() implies (#[trigger] t[i]).cid@ != (
            #[trigger] t[j]).cid@ by {
                assert(s[i].cid@ != s[j].cid@);
            }
        }
        lemma_map_values(t);
        lemma_map_keys(t);
        assert(!entries_map(t).contains_key(s.last().cid@)) by {
            if has_cid(t, s.last().cid@) {
                let i = choose|i: int| 0 <= i < t.len() && (#[trigger] t[i]).cid@ == s.last().cid@;
                assert(s[i].cid@ != s[s.len() - 1].cid@);
            }
        }
        assert forall|i: int| 0 <= i < s.len() implies entries_map(s).contains_key(
            (#[trigger] s[i]).cid@,
        ) && entries_map(s)[s[i].cid@] == s[i].client by {
            if i < s.len() - 1 {
                assert(t[i].cid@ == s[i].cid@);
                assert(s[i].cid@ != s[s.len() - 1].cid@);
            }
        }
    }
}

/// With distinct connection IDs, a map with the entries' keys and values is
/// the map that the entries spell.
pub proof fn lemma_map_is(s: Seq<CidEntry>, m: Map<Seq<u8>, u64>)
    requires
        distinct_cids(s),
        forall|k: Seq<u8>| #[trigger] m.contains_key(k) <==> has_cid(s, k),
        forall|i: int| 0 <= i < s.len() ==> m[(#[trigger] s[i]).cid@] == s[i].client,
    ensures
        entries_map(s) == m,
{
    lemma_map_keys(s);
    lemma_map_values(s);
    assert forall|k: Seq<u8>| #[trigger] entries_map(s).contains_key(k) implies entries_map(s)[k]
        == m[k] by {
        let i = choose|i: int| 0 <= i < s.len() && (#[trigger] s[i]).cid@ == k;
        assert(entries_map(s)[s[i].cid@] == s[i].client);
    }
    assert(entries_map(s) =~= m);
}

/// One more entry counts for its own client only.
pub proof fn lemma_count_push(s: Seq<CidEntry>, e: CidEntry, c: u64)
    ensures
        count_owned(s.push(e), c) == count_owned(s, c) + if e.client == c {
            1nat
        } else {
            0nat
        },
{
    assert(s.push(e).drop_last() =~= s);
}

/// Taking an entry out lowers the count of its own client only.
pub proof fn lemma_count_remove(s: Seq<CidEntry>, i: int, c: u64)
    requires
        0 <= i < s.len(),
    ensures
        count_owned(s.remove(i), c) + (if s[i].client == c {
            1nat
        } else {
            0nat
        }) == count_owned(s, c),
    decreases s.len(),
{
    if i == s.len() - 1 {
        assert(s.remove(i) =~= s.drop_last());
    } else {
        lemma_count_remove(s.drop_last(), i, c);
        assert(s.remove(i).drop_last() =~= s.drop_last().remove(i));
        assert(s.remove(i).last() == s.last());
    }
}

/// Replacing an entry moves one count from the old owner to the new one.
pub proof fn lemma_count_update(s: Seq<CidEntry>, i: int, e: CidEntry, c: u64)
    requires
        0 <= i < s.len(),
    ensures
        count_owned(s.update(i, e), c) + (if s[i].client == c {
            1nat
        } else {
            0nat
        }) == count_owned(s, c) + (if e.client == c {
            1nat
        } else {
            0nat
        }),
    decreases s.len(),
{
    if i == s.len() - 1 {
        assert(s.update(i, e).drop_last() =~= s.drop_last());
    } else {
        lemma_count_update(s.drop_last(), i, e, c);
        assert(s.update(i, e).drop_last() =~= s.drop_last().update(i, e));
        assert(s.update(i, e).last() == s.last());
    }
}

/// The connection IDs that a map routes to `client`.
pub open spec fn keys_of(m: Map<Seq<u8>, u64>, client: u64) -> Set<Seq<u8>> {
    Set::new(|k: Seq<u8>| m.contains_key(k) && m[k] == client)
}

/// How often `c` occurs in `clients`.
pub open spec fn occurrences(clients: Seq<u64>, c: u64) -> nat
    decreases clients.len(),
{
    if clients.len() == 0 {
        0
    } else {
        occurrences(clients.drop_last(), c) + if clients.last() == c {
            1nat
        } else {
            0nat
        }
    }
}

/// The number of entries that route to one of the listed clients, each
/// client counted as often as it is listed.
pub open spec fn sum_owned(s: Seq<CidEntry>, clients: Seq<u64>) -> nat
    decreases clients.len(),
{
    if clients.len() == 0 {
        0
    } else {
        sum_owned(s, clients.drop_last()) + count_owned(s, clients.last())
    }
}

/// With distinct connection IDs, the entries that route to a client are as
/// many as the keys that the map routes to it.
pub proof fn lemma_count_is_key_count(s: Seq<CidEntry>, c: u64)
    requires
        distinct_cids(s),
    ensures
        keys_of(entries_map(s), c).finite(),
        count_owned(s, c) == keys_of(entries_map(s), c).len(),
    decreases s.len(),
{
    lemma_map_keys(s);
    if s.len() == 0 {
        assert(keys_of(entries_map(s), c) =~= Set::<Seq<u8>>::empty());
    } else {
        let t = s.drop_last();
        let e = s.last();
        assert(distinct_cids(t)) by {
            assert forall|i: int, j: int| 0 <= i < j < t.len() implies (#[trigger] t[i]).cid@ != (
            #[trigger] t[j]).cid@ by {
                assert(s[i].cid@ != s[j].cid@);
            }
        }
        lemma_count_is_key_count(t, c);
        lemma_map_keys(t);
        assert(!entries_map(t).contains_key(e.cid@)) by {
            if has_cid(t, e.cid@) {
                let i = choose|i: int| 0 <= i < t.len() && (#[trigger] t[i]).cid@ == e.cid@;
                assert(s[i].cid@ != s[s.len() - 1].cid@);
            }
        }
        if e.client == c {
            assert(keys_of(entries_map(s), c) =~= keys_of(entries_map(t), c).insert(e.cid@));
        } else {
            assert(keys_of(entries_map(s), c) =~= keys_of(entries_map(t), c));
        }
    }
}

/// One more entry adds to the sum as often as its client is listed.
pub proof fn lemma_sum_push(s: Seq<CidEntry>, e: CidEntry, clients: Seq<u64>)
    ensures
        sum_owned(s.push(e), clients) == sum_owned(s, clients) + occurrences(clients, e.client),
    decreases clients.len(),
{
    if clients.len() > 0 {
        lemma_sum_push(s, e, clients.drop_last());
        lemma_count_push(s, e, clients.last());
    }
}

/// A client that is listed, in a list without repetition, occurs once.
pub proof fn lemma_occurs_once(clients: Seq<u64>, c: u64)
    requires
        clients.no_duplicates(),
    ensures
        occurrences(clients, c) == if clients.contains(c) {
            1nat
        } else {
            0nat
        },
    decreases clients.len(),
{
    if clients.len() > 0 {
        let front = clients.drop_last();
        lemma_occurs_once(front, c);
        if clients.last() == c {
            if front.contains(c) {
                let i = choose|i: int| 0 <= i < front.len() && front[i] == c;
                assert(clients[i] == clients[clients.len() - 1]);
            }
            assert(clients[clients.len() - 1] == c);
        } else {
            if clients.contains(c) {
                let i = choose|i: int| 0 <= i < clients.len() && clients[i] == c;
                assert(front[i] == c);
            }
            if front.contains(c) {
                let i = choose|i: int| 0 <= i < front.len() && front[i] == c;
                assert(clients[i] == c);
            }
        }
    }
}

/// When every entry routes to a listed client and no client is listed twice,
/// the per-client counts add up to the number of entries.
pub proof fn lemma_sum_is_len(s: Seq<CidEntry>, clients: Seq<u64>)
    requires
        clients.no_duplicates(),
        forall|i: int| 0 <= i < s.len() ==> clients.contains((#[trigger] s[i]).client),
    ensures
        sum_owned(s, clients) == s.len(),
    decreases s.len(),
{
    if s.len() == 0 {
        lemma_sum_empty(s, clients);
    } else {
        let t = s.drop_last();
        assert forall|i: int| 0 <= i < t.len() implies clients.contains((#[trigger] t[i]).client) by {
            assert(clients.contains(s[i].client));
        }
        lemma_sum_is_len(t, clients);
        lemma_sum_push(t, s.last(), clients);
        assert(t.push(s.last()) =~= s);
        assert(clients.contains(s[s.len() - 1].client));
        lemma_occurs_once(clients, s.last().client);
    }
}

/// Without entries every sum is zero.
pub proof fn lemma_sum_empty(s: Seq<CidEntry>, clients: Seq<u64>)
    requires
        s.len() == 0,
    ensures
        sum_owned(s, clients) == 0,
    decreases clients.len(),
{
    if clients.len() > 0 {
        lemma_sum_empty(s, clients.drop_last());
    }
}

/// The table from connection IDs to client numbers. A connection ID routes
/// to at most one client.
pub struct ClientIdMap {
    entries: Vec<CidEntry>,
}

impl View for ClientIdMap {
    type V = Map<Seq<u8>, u64>;

    closed spec fn view(&self) -> Map<Seq<u8>, u64> {
        entries_map(self.entries@)
    }
}

impl ClientIdMap {
    /// No connection ID is held twice.
    pub closed spec fn wf(&self) -> bool {
        distinct_cids(self.entries@)
    }

    /// How many connection IDs route to `client`.
    pub closed spec fn spec_owned(&self, client: u64) -> nat {
        count_owned(self.entries@, client)
    }

    /// The number of connection IDs that route to the listed clients, added
    /// up client by client.
    pub open spec fn spec_owned_sum(&self, clients: Seq<u64>) -> nat
        decreases clients.len(),
    {
        if clients.len() == 0 {
            0
        } else {
            self.spec_owned_sum(clients.drop_last()) + self.spec_owned(clients.last())
        }
    }

    /// The sum over the listed clients is the sum over the entries.
    proof fn lemma_owned_sum(&self, clients: Seq<u64>)
        ensures
            self.spec_owned_sum(clients) == sum_owned(self.entries@, clients),
        decreases clients.len(),
    {
        if clients.len() > 0 {
            self.lemma_owned_sum(clients.drop_last());
        }
    }

    /// The count for a client is the number of keys that the table routes to
    /// it.
    pub proof fn lemma_owned_counts_keys(&self, client: u64)
        requires
            self.wf(),
        ensures
            keys_of(self@, client).finite(),
            self.spec_owned(client) == keys_of(self@, client).len(),
    {
        lemma_count_is_key_count(self.entries@, client);
    }

    /// The size of the table is the sum, over the clients it routes to, of the
    /// number of connection IDs of each.
    pub proof fn lemma_len_is_sum_of_owned(&self, clients: Seq<u64>)
        requires
            self.wf(),
            clients.no_duplicates(),
            forall|k: Seq<u8>| #[trigger] self@.contains_key(k) ==> clients.contains(self@[k]),
        ensures
            self@.dom().finite(),
            self@.dom().len() == self.spec_owned_sum(clients),
    {
        let s = self.entries@;
        lemma_map_keys(s);
        lemma_map_values(s);
        assert forall|i: int| 0 <= i < s.len() implies clients.contains((#[trigger] s[i]).client) by {
            assert(self@.contains_key(s[i].cid@));
            assert(self@[s[i].cid@] == s[i].client);
        }
        lemma_sum_is_len(s, clients);
        self.lemma_owned_sum(clients);
    }

    /// The empty table.
    pub fn new() -> (r: ClientIdMap)
        ensures
            r.wf(),
            r@ == Map::<Seq<u8>, u64>::empty(),
            forall|c: u64| r.spec_owned(c) == 0,
    {
        ClientIdMap { entries: Vec::new() }
    }

    /// The position of `cid` among the entries.
    fn position(&self, cid: &[u8]) -> (r: Option<usize>)
        ensures
            r matches Some(i) ==> i < self.entries@.len() && self.entries@[i as int].cid@ == cid@,
            r is None ==> !has_cid(self.entries@, cid@),
    {
        let mut i: usize = 0;
        while i < self.entries.len()
            invariant
                i <= self.entries@.len(),
                forall|j: int| 0 <= j < i ==> (#[trigger] self.entries@[j]).cid@ != cid@,
            decreases self.entries@.len() - i,
        {
            if bytes_equal(self.entries[i].cid.as_slice(), cid) {
                return Some(i);
            }
            i = i + 1;
        }
        None
    }

    /// The number of connection IDs in the table.
    pub fn len(&self) -> (r: usize)
        requires
            self.wf(),
        ensures
            r == self@.dom().len(),
            self@.dom().finite(),
    {
        proof {
            lemma_map_values(self.entries@);
            lemma_map_keys(self.entries@);
        }
        self.entries.len()
    }

    /// How many connection IDs route to `client`.
    pub fn owned(&self, client: u64) -> (r: usize)
        ensures
            r == self.spec_owned(client),
    {
        let mut count: usize = 0;
        let mut i: usize = 0;
        while i < self.entries.len()
            invariant
                i <= self.entries@.len(),
                count <= i,
                count == count_owned(self.entries@.take(i as int), client),
            decreases self.entries@.len() - i,
        {
            assert(self.entries@.take(i + 1).drop_last() =~= self.entries@.take(i as int));
            assert(self.entries@.take(i + 1).last() == self.entries@[i as int]);
            if self.entries[i].client == client {
                count = count + 1;
            }
            i = i + 1;
        }
        assert(self.entries@.take(i as int) =~= self.entries@);
        count
    }

    /// Whether `cid` routes to a client.
    pub fn contains_key(&self, cid: &[u8]) -> (r: bool)
        ensures
            r == self@.contains_key(cid@),
    {
        proof {
            lemma_map_keys(self.entries@);
        }
        self.position(cid).is_some()
    }

    /// The client that `cid` routes to.
    pub fn get(&self, cid: &[u8]) -> (r: Option<u64>)
        requires
            self.wf(),
        ensures
            r == if self@.contains_key(cid@) {
                Some(self@[cid@])
            } else {
                None
            },
    {
        proof {
            lemma_map_keys(self.entries@);
            lemma_map_values(self.entries@);
        }
        match self.position(cid) {
            Some(i) => Some(self.entries[i].client),
            None => None,
        }
    }

    /// Routes `cid` to `client`, whatever it routed to before.
    pub fn insert(&mut self, cid: Vec<u8>, client: u64)
        requires
            old(self).wf(),
        ensures
            final(self).wf(),
            final(self)@ == old(self)@.insert(cid@, client),
            forall|c: u64|
                #[trigger] final(self).spec_owned(c) + (if old(self)@.contains_key(cid@) && old(self)@[cid@] == c {
                    1nat
                } else {
                    0nat
                }) == old(self).spec_owned(c) + (if c == client {
                    1nat
                } else {
                    0nat
                }),
    {
        proof {
            lemma_map_keys(self.entries@);
            lemma_map_values(self.entries@);
        }
        let ghost before = self.entries@;
        let ghost key = cid@;
        let entry = CidEntry { cid, client };
        match self.position(entry.cid.as_slice()) {
            Some(i) => {
                self.entries.set(i, entry);
                proof {
                    let after = self.entries@;
                    assert forall|a: int, b: int| 0 <= a < b < after.len() implies (
                    #[trigger] after[a]).cid@ != (#[trigger] after[b]).cid@ by {
                        assert(before[a].cid@ != before[b].cid@);
                    }
                    let m = entries_map(before).insert(key, client);
                    assert forall|k: Seq<u8>| #[trigger] m.contains_key(k) <==> has_cid(
                        after,
                        k,
                    ) by {
                        if has_cid(after, k) {
                            let j = choose|j: int| 0 <= j < after.len() && (#[trigger] after[j]).cid@ == k;
                            assert(before[j].cid@ == k);
                        }
                        if m.contains_key(k) && k != key {
                            let j = choose|j: int| 0 <= j < before.len() && (#[trigger] before[j]).cid@ == k;
                            assert(after[j].cid@ == k);
                        }
                        if k == key {
                            assert(after[i as int].cid@ == k);
                        }
                    }
                    assert forall|j: int| 0 <= j < after.len() implies m[(#[trigger] after[j]).cid@]
                        == after[j].client by {
                        if j != i {
                            assert(before[j].cid@ != before[i as int].cid@);
                            assert(entries_map(before)[before[j].cid@] == before[j].client);
                        }
                    }
                    lemma_map_is(after, m);
                    assert(entries_map(before)[before[i as int].cid@] == before[i as int].client);
                    assert forall|c: u64|
                        count_owned(after, c) + (if before[i as int].client == c {
                            1nat
                        } else {
                            0nat
                        }) == #[trigger] count_owned(before, c) + (if c == client {
                            1nat
                        } else {
                            0nat
                        }) by {
                        lemma_count_update(before, i as int, after[i as int], c);
                    }
                }
            },
            None => {
                self.entries.push(entry);
                proof {
                    let after = self.entries@;
                    assert(after.drop_last() =~= before);
                    assert forall|a: int, b: int| 0 <= a < b < after.len() implies (
                    #[trigger] after[a]).cid@ != (#[trigger] after[b]).cid@ by {
                        if b < before.len() {
                            assert(before[a].cid@ != before[b].cid@);
                        } else {
                            assert(before[a].cid@ != key);
                        }
                    }
                    assert forall|c: u64|
                        count_owned(after, c) == #[trigger] count_owned(before, c) + (if c
                            == client {
                            1nat
                        } else {
                            0nat
                        }) by {
                        lemma_count_push(before, after.last(), c);
                        assert(before.push(after.last()) =~= after);
                    }
                }
            },
        }
    }

    /// Forgets `cid`. Returns the client it routed to.
    pub fn remove(&mut self, cid: &[u8]) -> (r: Option<u64>)
        requires
            old(self).wf(),
        ensures
            final(self).wf(),
            final(self)@ == old(self)@.remove(cid@),
            r == if old(self)@.contains_key(cid@) {
                Some(old(self)@[cid@])
            } else {
                None
            },
            forall|c: u64|
                #[trigger] final(self).spec_owned(c) + (if r == Some(c) {
                    1nat
                } else {
                    0nat
                }) == old(self).spec_owned(c),
    {
        proof {
            lemma_map_keys(self.entries@);
            lemma_map_values(self.entries@);
        }
        let ghost before = self.entries@;
        match self.position(cid) {
            Some(i) => {
                let gone = self.entries.remove(i);
                proof {
                    let after = self.entries@;
                    assert forall|a: int, b: int| 0 <= a < b < after.len() implies (
                    #[trigger] after[a]).cid@ != (#[trigger] after[b]).cid@ by {
                        let a0 = if a < i { a } else { a + 1 };
                        let b0 = if b < i { b } else { b + 1 };
                        assert(before[a0].cid@ != before[b0].cid@);
                    }
                    let m = entries_map(before).remove(cid@);
                    assert forall|k: Seq<u8>| #[trigger] m.contains_key(k) <==> has_cid(
                        after,
                        k,
                    ) by {
                        if has_cid(after, k) {
                            let j = choose|j: int| 0 <= j < after.len() && (#[trigger] after[j]).cid@ == k;
                            let j0 = if j < i { j } else { j + 1 };
                            assert(before[j0].cid@ == k);
                            assert(before[j0].cid@ != before[i as int].cid@);
                        }
                        if m.contains_key(k) {
                            let j = choose|j: int| 0 <= j < before.len() && (#[trigger] before[j]).cid@ == k;
                            let j1 = if j < i { j } else { j - 1 };
                            assert(after[j1].cid@ == k);
                        }
                    }
                    assert forall|j: int| 0 <= j < after.len() implies m[(#[trigger] after[j]).cid@]
                        == after[j].client by {
                        let j0 = if j < i { j } else { j + 1 };
                        assert(before[j0].cid@ != before[i as int].cid@);
                        assert(entries_map(before)[before[j0].cid@] == before[j0].client);
                    }
                    lemma_map_is(after, m);
                    assert(entries_map(before)[before[i as int].cid@] == before[i as int].client);
                    assert forall|c: u64|
                        count_owned(after, c) + (if before[i as int].client == c {
                            1nat
                        } else {
                            0nat
                        }) == #[trigger] count_owned(before, c) by {
                        lemma_count_remove(before, i as int, c);
                    }
                }
                Some(gone.client)
            },
            None => {
                assert(entries_map(before).remove(cid@) =~= entries_map(before));
                None
            },
        }
    }

    /// Forgets every connection ID that routes to `client`.
    pub fn remove_client(&mut self, client: u64)
        requires
            old(self).wf(),
        ensures
            final(self).wf(),
            forall|k: Seq<u8>| #[trigger]
                final(self)@.contains_key(k) <==> old(self)@.contains_key(k) && old(self)@[k]
                    != client,
            forall|k: Seq<u8>| #[trigger]
                final(self)@.contains_key(k) ==> final(self)@[k] == old(self)@[k],
            final(self).spec_owned(client) == 0,
            forall|c: u64| c != client ==> #[trigger] final(self).spec_owned(c) == old(self).spec_owned(c),
    {
        let ghost s0 = self.entries@;
        let ghost mut src: Seq<int> = Seq::empty();
        let mut kept: Vec<CidEntry> = Vec::new();
        while self.entries.len() > 0
            invariant
                distinct_cids(s0),
                self.entries@.len() <= s0.len(),
                self.entries@ == s0.subrange(0, self.entries@.len() as int),
                src.len() == kept@.len(),
                forall|j: int|
                    0 <= j < kept@.len() ==> self.entries@.len() <= #[trigger] src[j] < s0.len()
                        && kept@[j] == s0[src[j]] && s0[src[j]].client != client,
                forall|a: int, b: int| 0 <= a < b < src.len() ==> #[trigger] src[a] > #[trigger] src[b],
                forall|i: int|
                    self.entries@.len() <= i < s0.len() && (#[trigger] s0[i]).client != client
                        ==> has_cid(kept@, s0[i].cid@),
                forall|c: u64|
                    c != client ==> count_owned(kept@, c) + count_owned(self.entries@, c)
                        == #[trigger] count_owned(s0, c),
                count_owned(kept@, client) == 0,
            decreases self.entries@.len(),
        {
            let ghost rest = self.entries@;
            let ghost held = kept@;
            let e = self.entries.pop().unwrap();
            assert(self.entries@ =~= rest.drop_last());
            assert(e == s0[rest.len() - 1]);
            if e.client != client {
                kept.push(e);
                proof {
                    src = src.push(rest.len() - 1);
                    assert(kept@.drop_last() =~= held);
                    assert forall|i: int|
                        self.entries@.len() <= i < s0.len() && (#[trigger] s0[i]).client
                            != client implies has_cid(kept@, s0[i].cid@) by {
                        if i == rest.len() - 1 {
                            assert(kept@[held.len() as int].cid@ == s0[i].cid@);
                        } else {
                            assert(has_cid(held, s0[i].cid@));
                            let j = choose|j: int|
                                0 <= j < held.len() && (#[trigger] held[j]).cid@ == s0[i].cid@;
                            assert(kept@[j].cid@ == s0[i].cid@);
                        }
                    }
                }
            }
        }
        proof {
            lemma_map_keys(s0);
            lemma_map_values(s0);
            let after = kept@;
            assert(self.entries@ =~= Seq::<CidEntry>::empty());
            assert forall|a: int, b: int| 0 <= a < b < after.len() implies (#[trigger] after[a]).cid@
                != (#[trigger] after[b]).cid@ by {
                assert(src[a] > src[b]);
                assert(s0[src[b]].cid@ != s0[src[a]].cid@);
            }
            lemma_map_keys(after);
            lemma_map_values(after);
            assert forall|k: Seq<u8>| #[trigger]
                entries_map(after).contains_key(k) <==> entries_map(s0).contains_key(k)
                    && entries_map(s0)[k] != client by {
                if has_cid(after, k) {
                    let j = choose|j: int| 0 <= j < after.len() && (#[trigger] after[j]).cid@ == k;
                    assert(s0[src[j]].cid@ == k);
                    assert(entries_map(s0)[s0[src[j]].cid@] == s0[src[j]].client);
                }
                if entries_map(s0).contains_key(k) && entries_map(s0)[k] != client {
                    let i = choose|i: int| 0 <= i < s0.len() && (#[trigger] s0[i]).cid@ == k;
                    assert(entries_map(s0)[s0[i].cid@] == s0[i].client);
                    assert(has_cid(after, s0[i].cid@));
                }
            }
            assert forall|k: Seq<u8>| #[trigger]
                entries_map(after).contains_key(k) implies entries_map(after)[k] == entries_map(
                s0,
            )[k] by {
                let j = choose|j: int| 0 <= j < after.len() && (#[trigger] after[j]).cid@ == k;
                assert(entries_map(after)[after[j].cid@] == after[j].client);
                assert(entries_map(s0)[s0[src[j]].cid@] == s0[src[j]].client);
            }
        }
        self.entries = kept;
    }
}

} // verus!

//! The shared client registry: a mapping from (connection id, channel id)
//! to the handle that pushes data into that channel. One instance is shared
//! by every connection; registration happens on channel open, removal on
//! channel close or connection teardown (idempotently), and the broadcast
//! fan-out walks every entry of a different connection exactly once.

use vstd::prelude::*;

verus! {

/// One registered channel: the connection it belongs to, the channel id
/// scoped to that connection, and the handle that pushes data into it.
#[verifier::reject_recursive_types(H)]
pub struct Entry<H> {
    pub conn: u64,
    pub chan: u64,
    pub handle: H,
}

/// The key of an entry: the globally unique (connection id, channel id) pair.
pub open spec fn key_of<H>(e: Entry<H>) -> (u64, u64) {
    (e.conn, e.chan)
}

/// Whether some entry of `s` carries the key `k`.
pub open spec fn seq_has_key<H>(s: Seq<Entry<H>>, k: (u64, u64)) -> bool {
    exists|i: int| 0 <= i < s.len() && #[trigger] key_of(s[i]) == k
}

/// No two entries of `s` share a key.
pub open spec fn distinct_keys<H>(s: Seq<Entry<H>>) -> bool {
    forall|i: int, j: int|
        0 <= i < j < s.len() ==> #[trigger] key_of(s[i]) != #[trigger] key_of(s[j])
}

/// `s` with every entry of key `k` taken out.
pub open spec fn without_key<H>(s: Seq<Entry<H>>, k: (u64, u64)) -> Seq<Entry<H>>
    decreases s.len(),
{
    if s.len() == 0 {
        Seq::empty()
    } else {
        let rest = without_key(s.drop_last(), k);
        if key_of(s.last()) == k {
            rest
        } else {
            rest.push(s.last())
        }
    }
}

/// `s` with every entry of connection `conn` taken out.
pub open spec fn without_conn<H>(s: Seq<Entry<H>>, conn: u64) -> Seq<Entry<H>>
    decreases s.len(),
{
    if s.len() == 0 {
        Seq::empty()
    } else {
        let rest = without_conn(s.drop_last(), conn);
        if s.last().conn == conn {
            rest
        } else {
            rest.push(s.last())
        }
    }
}

/// The indices of the entries a broadcast from `sender` goes to: every
/// entry whose connection differs from the sender's, in registry order.
pub open spec fn spec_targets<H>(s: Seq<Entry<H>>, sender: u64) -> Seq<int>
    decreases s.len(),
{
    if s.len() == 0 {
        Seq::empty()
    } else {
        let rest = spec_targets(s.drop_last(), sender);
        if s.last().conn != sender {
            rest.push(s.len() - 1)
        } else {
            rest
        }
    }
}

/// The shared client registry. Invariant: no two entries share a
/// (connection id, channel id) key.
#[verifier::reject_recursive_types(H)]
pub struct Registry<H> {
    entries: Vec<Entry<H>>,
}

impl<H> Registry<H> {
    /// The entries, oldest registration first.
    pub closed spec fn rows(self) -> Seq<Entry<H>> {
        self.entries@
    }

    /// Well-formed: every key appears at most once.
    pub open spec fn wf(self) -> bool {
        distinct_keys(self.rows())
    }

    /// An empty registry.
    pub fn new() -> (r: Self)
        ensures
            r.rows() == Seq::<Entry<H>>::empty(),
            r.wf(),
    {
        Registry { entries: Vec::new() }
    }

    /// How many channels are registered.
    pub fn len(&self) -> (n: usize)
        ensures
            n == self.rows().len(),
    {
        self.entries.len()
    }

    /// Whether the pair (conn, chan) is registered.
    pub fn contains_key(&self, conn: u64, chan: u64) -> (b: bool)
        ensures
            b == seq_has_key(self.rows(), (conn, chan)),
    {
        let mut i: usize = 0;
        while i < self.entries.len()
            invariant
                i <= self.rows().len(),
                forall|j: int| 0 <= j < i ==> #[trigger] key_of(self.rows()[j]) != (conn, chan),
            decreases self.rows().len() - i,
        {
            if self.entries[i].conn == conn && self.entries[i].chan == chan {
                assert(key_of(self.rows()[i as int]) == (conn, chan));
                return true;
            }
            i = i + 1;
        }
        false
    }

    /// Inserts a fresh mapping. The pair must not be registered yet: a
    /// channel announces itself exactly once, on open.
    pub fn register(&mut self, conn: u64, chan: u64, handle: H)
        requires
            old(self).wf(),
            !seq_has_key(old(self).rows(), (conn, chan)),
        ensures
            final(self).rows() == old(self).rows().push(Entry { conn, chan, handle }),
            final(self).wf(),
            seq_has_key(final(self).rows(), (conn, chan)),
    {
        proof {
            lemma_push_fresh_key(self.rows(), Entry { conn, chan, handle });
        }
        self.entries.push(Entry { conn, chan, handle });
    }

    /// Removes the mapping of (conn, chan) if it is there; absence of the
    /// key is not an error, so removal is idempotent.
    pub fn unregister(&mut self, conn: u64, chan: u64)
        requires
            old(self).wf(),
        ensures
            final(self).rows() == without_key(old(self).rows(), (conn, chan)),
            final(self).wf(),
            !seq_has_key(final(self).rows(), (conn, chan)),
    {
        let ghost orig = self.rows();
        let mut i: usize = 0;
        while i < self.entries.len()
            invariant
                orig == old(self).rows(),
                distinct_keys(orig),
                self.rows() == orig,
                i <= orig.len(),
                forall|j: int| 0 <= j < i ==> #[trigger] key_of(orig[j]) != (conn, chan),
            decreases orig.len() - i,
        {
            if self.entries[i].conn == conn && self.entries[i].chan == chan {
                assert(key_of(orig[i as int]) == (conn, chan));
                self.entries.remove(i);
                proof {
                    assert forall|j: int| 0 <= j < orig.len() && j != i implies #[trigger] key_of(
                        orig[j],
                    ) != (conn, chan) by {
                        if j < i {
                            assert(key_of(orig[j]) != key_of(orig[i as int]));
                        } else {
                            assert(key_of(orig[i as int]) != key_of(orig[j]));
                        }
                    }
                    lemma_without_key_remove(orig, (conn, chan), i as int);
                    lemma_without_key_spec(orig, (conn, chan));
                }
                return ;
            }
            i = i + 1;
        }
        proof {
            assert(!seq_has_key(orig, (conn, chan)));
            lemma_without_key_id(orig, (conn, chan));
            lemma_without_key_spec(orig, (conn, chan));
        }
    }

    /// Removes every entry of connection `conn`: the teardown path when a
    /// whole connection drops.
    pub fn remove_connection(&mut self, conn: u64)
        requires
            old(self).wf(),
        ensures
            final(self).rows() == without_conn(old(self).rows(), conn),
            final(self).wf(),
    {
        let ghost orig = self.rows();
        let ghost mut k: int = 0;
        let mut i: usize = 0;
        while i < self.entries.len()
            invariant
                orig == old(self).rows(),
                distinct_keys(orig),
                0 <= k <= orig.len(),
                i == without_conn(orig.subrange(0, k), conn).len(),
                self.rows() == without_conn(orig.subrange(0, k), conn) + orig.subrange(
                    k,
                    orig.len() as int,
                ),
            decreases orig.len() - k,
        {
            proof {
                assert(k < orig.len());
                assert(self.rows()[i as int] == orig.subrange(k, orig.len() as int)[0]);
                assert(self.rows()[i as int] == orig[k]);
                assert(orig.subrange(0, k + 1).drop_last() =~= orig.subrange(0, k));
                assert(orig.subrange(0, k + 1).last() == orig[k]);
            }
            if self.entries[i].conn == conn {
                self.entries.remove(i);
                proof {
                    assert(self.rows() =~= without_conn(orig.subrange(0, k + 1), conn)
                        + orig.subrange(k + 1, orig.len() as int));
                    k = k + 1;
                }
            } else {
                i = i + 1;
                proof {
                    assert(without_conn(orig.subrange(0, k + 1), conn) =~= without_conn(
                        orig.subrange(0, k),
                        conn,
                    ).push(orig[k]));
                    assert(self.rows() =~= without_conn(orig.subrange(0, k + 1), conn)
                        + orig.subrange(k + 1, orig.len() as int));
                    k = k + 1;
                }
            }
        }
        proof {
            assert(orig.subrange(k, orig.len() as int).len() == 0);
            assert(k == orig.len());
            assert(orig.subrange(0, orig.len() as int) =~= orig);
            assert(self.rows() =~= without_conn(orig, conn));
            lemma_without_conn_spec(orig, conn);
        }
    }

    /// The indices of the entries a broadcast from `sender` must reach:
    /// every registered channel of a different connection, each once.
    pub fn broadcast_targets(&self, sender: u64) -> (r: Vec<usize>)
        ensures
            r@.map_values(|u: usize| u as int) == spec_targets(self.rows(), sender),
    {
        let mut r: Vec<usize> = Vec::new();
        let mut i: usize = 0;
        while i < self.entries.len()
            invariant
                i <= self.rows().len(),
                r@.map_values(|u: usize| u as int) == spec_targets(
                    self.rows().subrange(0, i as int),
                    sender,
                ),
            decreases self.rows().len() - i,
        {
            assert(self.rows().subrange(0, i + 1).drop_last() =~= self.rows().subrange(
                0,
                i as int,
            ));
            assert(self.rows().subrange(0, i + 1).last() == self.rows()[i as int]);
            if self.entries[i].conn != sender {
                r.push(i);
                assert(r@.map_values(|u: usize| u as int) =~= spec_targets(
                    self.rows().subrange(0, i + 1),
                    sender,
                ));
            } else {
                assert(r@.map_values(|u: usize| u as int) =~= spec_targets(
                    self.rows().subrange(0, i + 1),
                    sender,
                ));
            }
            i = i + 1;
        }
        proof {
            assert(self.rows().subrange(0, self.rows().len() as int) =~= self.rows());
        }
        r
    }

    /// The channel id of the entry at `i`.
    pub fn channel_at(&self, i: usize) -> (c: u64)
        requires
            i < self.rows().len(),
        ensures
            c == self.rows()[i as int].chan,
    {
        self.entries[i].chan
    }

    /// The connection id of the entry at `i`.
    pub fn conn_at(&self, i: usize) -> (c: u64)
        requires
            i < self.rows().len(),
        ensures
            c == self.rows()[i as int].conn,
    {
        self.entries[i].conn
    }

    /// The handle of the entry at `i`.
    pub fn handle_at(&self, i: usize) -> (h: &H)
        requires
            i < self.rows().len(),
        ensures
            *h == self.rows()[i as int].handle,
    {
        &self.entries[i].handle
    }
}

/// Appending an entry whose key is fresh keeps the keys distinct, adds that
/// key, and leaves every other key as it was.
pub proof fn lemma_push_fresh_key<H>(s: Seq<Entry<H>>, e: Entry<H>)
    requires
        distinct_keys(s),
        !seq_has_key(s, key_of(e)),
    ensures
        distinct_keys(s.push(e)),
        seq_has_key(s.push(e), key_of(e)),
        forall|k2: (u64, u64)|
            k2 != key_of(e) ==> #[trigger] seq_has_key(s.push(e), k2) == seq_has_key(s, k2),
{
    let t = s.push(e);
    assert(key_of(t[s.len() as int]) == key_of(e));
    assert forall|i: int, j: int| 0 <= i < j < t.len() implies #[trigger] key_of(t[i])
        != #[trigger] key_of(t[j]) by {
        if j < s.len() {
            assert(key_of(s[i]) != key_of(s[j]));
        } else {
            assert(t[j] == e);
            assert(t[i] == s[i]);
            assert(!(0 <= i < s.len() && key_of(s[i]) == key_of(e)));
        }
    }
    assert forall|k2: (u64, u64)| k2 != key_of(e) implies #[trigger] seq_has_key(t, k2)
        == seq_has_key(s, k2) by {
        if seq_has_key(t, k2) {
            let i = choose|i: int| 0 <= i < t.len() && #[trigger] key_of(t[i]) == k2;
            assert(i < s.len());
            assert(key_of(s[i]) == k2);
        }
        if seq_has_key(s, k2) {
            let i = choose|i: int| 0 <= i < s.len() && #[trigger] key_of(s[i]) == k2;
            assert(key_of(t[i]) == k2);
        }
    }
}

/// Taking a key out keeps every other entry, in order, and no entry of that
/// key; distinctness of keys is preserved.
pub proof fn lemma_without_key_spec<H>(s: Seq<Entry<H>>, k: (u64, u64))
    ensures
        !seq_has_key(without_key(s, k), k),
        forall|k2: (u64, u64)|
            k2 != k ==> #[trigger] seq_has_key(without_key(s, k), k2) == seq_has_key(s, k2),
        distinct_keys(s) ==> distinct_keys(without_key(s, k)),
        forall|i: int|
            0 <= i < without_key(s, k).len() ==> s.contains(#[trigger] without_key(s, k)[i]),
    decreases s.len(),
{
    let w = without_key(s, k);
    if s.len() == 0 {
    } else {
        let prev = s.drop_last();
        lemma_without_key_spec(prev, k);
        let wp = without_key(prev, k);
        assert forall|i: int| 0 <= i < prev.len() implies s.contains(prev[i]) by {
            assert(s[i] == prev[i]);
        }
        if distinct_keys(s) {
            assert forall|i: int, j: int| 0 <= i < j < prev.len() implies #[trigger] key_of(
                prev[i],
            ) != #[trigger] key_of(prev[j]) by {
                assert(key_of(s[i]) != key_of(s[j]));
            }
            assert(distinct_keys(prev));
        }
        if key_of(s.last()) == k {
            // w == wp
            assert forall|i: int| 0 <= i < w.len() implies s.contains(#[trigger] w[i]) by {
                assert(prev.contains(wp[i]));
                let j = choose|j: int| 0 <= j < prev.len() && prev[j] == wp[i];
                assert(s[j] == wp[i]);
            }
            assert forall|k2: (u64, u64)| k2 != k implies #[trigger] seq_has_key(w, k2)
                == seq_has_key(s, k2) by {
                if seq_has_key(s, k2) {
                    let i = choose|i: int| 0 <= i < s.len() && #[trigger] key_of(s[i]) == k2;
                    assert(i < prev.len() || key_of(s.last()) == k2);
                    if i < prev.len() {
                        assert(key_of(prev[i]) == k2);
                    }
                    assert(seq_has_key(prev, k2));
                }
                if seq_has_key(w, k2) {
                    assert(seq_has_key(prev, k2));
                    let i = choose|i: int| 0 <= i < prev.len() && #[trigger] key_of(prev[i]) == k2;
                    assert(key_of(s[i]) == k2);
                }
            }
        } else {
            // w == wp.push(s.last())
            assert forall|i: int| 0 <= i < w.len() implies s.contains(#[trigger] w[i]) by {
                if i < wp.len() {
                    assert(prev.contains(wp[i]));
                    let j = choose|j: int| 0 <= j < prev.len() && prev[j] == wp[i];
                    assert(s[j] == wp[i]);
                } else {
                    assert(w[i] == s.last());
                    assert(s[s.len() - 1] == s.last());
                }
            }
            assert(!seq_has_key(wp, k));
            assert forall|i: int| 0 <= i < w.len() implies #[trigger] key_of(w[i]) != k by {
                if i < wp.len() {
                    assert(!(0 <= i < wp.len() && key_of(wp[i]) == k));
                } else {
                    assert(w[i] == s.last());
                }
            }
            assert(!seq_has_key(w, k));
            if distinct_keys(s) {
                assert forall|i: int, j: int| 0 <= i < j < w.len() implies #[trigger] key_of(w[i])
                    != #[trigger] key_of(w[j]) by {
                    if j < wp.len() {
                        assert(key_of(wp[i]) != key_of(wp[j]));
                    } else {
                        assert(w[j] == s.last());
                        assert(prev.contains(wp[i]));
                        let m = choose|m: int| 0 <= m < prev.len() && prev[m] == wp[i];
                        assert(key_of(s[m]) != key_of(s[s.len() - 1]));
                    }
                }
            }
            assert forall|k2: (u64, u64)| k2 != k implies #[trigger] seq_has_key(w, k2)
                == seq_has_key(s, k2) by {
                if seq_has_key(s, k2) {
                    let i = choose|i: int| 0 <= i < s.len() && #[trigger] key_of(s[i]) == k2;
                    if i < prev.len() {
                        assert(key_of(prev[i]) == k2);
                        assert(seq_has_key(wp, k2));
                        let m = choose|m: int|
                            0 <= m < wp.len() && #[trigger] key_of(wp[m]) == k2;
                        assert(key_of(w[m]) == k2);
                    } else {
                        assert(key_of(w[w.len() - 1]) == k2);
                    }
                }
                if seq_has_key(w, k2) {
                    let i = choose|i: int| 0 <= i < w.len() && #[trigger] key_of(w[i]) == k2;
                    if i < wp.len() {
                        assert(seq_has_key(prev, k2));
                        let m = choose|m: int|
                            0 <= m < prev.len() && #[trigger] key_of(prev[m]) == k2;
                        assert(key_of(s[m]) == k2);
                    } else {
                        assert(key_of(s[s.len() - 1]) == k2);
                    }
                }
            }
        }
    }
}

/// Where no entry carries the key, taking it out changes nothing.
pub proof fn lemma_without_key_id<H>(s: Seq<Entry<H>>, k: (u64, u64))
    requires
        !seq_has_key(s, k),
    ensures
        without_key(s, k) == s,
    decreases s.len(),
{
    if s.len() == 0 {
        assert(without_key(s, k) =~= s);
    } else {
        let prev = s.drop_last();
        assert forall|i: int| 0 <= i < prev.len() implies #[trigger] key_of(prev[i]) != k by {
            assert(!(0 <= i < s.len() && key_of(s[i]) == k));
        }
        assert(!seq_has_key(prev, k));
        lemma_without_key_id(prev, k);
        assert(!(0 <= s.len() - 1 < s.len() && key_of(s[s.len() - 1]) == k));
        assert(key_of(s.last()) != k);
        assert(without_key(s, k) =~= s);
    }
}

/// Where exactly the entry at `i` carries the key, taking the key out is
/// removing that entry.
pub proof fn lemma_without_key_remove<H>(s: Seq<Entry<H>>, k: (u64, u64), i: int)
    requires
        0 <= i < s.len(),
        key_of(s[i]) == k,
        forall|j: int| 0 <= j < s.len() && j != i ==> #[trigger] key_of(s[j]) != k,
    ensures
        without_key(s, k) == s.remove(i),
    decreases s.len(),
{
    let prev = s.drop_last();
    if i == s.len() - 1 {
        assert forall|j: int| 0 <= j < prev.len() implies #[trigger] key_of(prev[j]) != k by {
            assert(key_of(s[j]) != k);
        }
        assert(!seq_has_key(prev, k));
        lemma_without_key_id(prev, k);
        assert(key_of(s.last()) == k);
        assert(without_key(s, k) == prev);
        assert(s.remove(i) =~= prev);
    } else {
        assert(key_of(prev[i]) == k);
        assert forall|j: int| 0 <= j < prev.len() && j != i implies #[trigger] key_of(prev[j])
            != k by {
            assert(key_of(s[j]) != k);
        }
        lemma_without_key_remove(prev, k, i);
        assert(key_of(s.last()) != k);
        assert(without_key(s, k) == prev.remove(i).push(s.last()));
        assert(prev.remove(i).push(s.last()) =~= s.remove(i));
    }
}

/// Taking a connection out removes exactly its entries: afterwards no entry
/// of that connection is left, every entry of another connection is kept,
/// and distinctness of keys is preserved.
pub proof fn lemma_without_conn_spec<H>(s: Seq<Entry<H>>, conn: u64)
    ensures
        forall|i: int|
            0 <= i < without_conn(s, conn).len() ==> (#[trigger] without_conn(s, conn)[i]).conn
                != conn,
        forall|i: int|
            0 <= i < without_conn(s, conn).len() ==> s.contains(
                #[trigger] without_conn(s, conn)[i],
            ),
        forall|i: int|
            0 <= i < s.len() && (#[trigger] s[i]).conn != conn ==> without_conn(s, conn).contains(
                s[i],
            ),
        distinct_keys(s) ==> distinct_keys(without_conn(s, conn)),
        forall|k2: (u64, u64)|
            #[trigger] seq_has_key(without_conn(s, conn), k2) ==> seq_has_key(s, k2),
    decreases s.len(),
{
    let w = without_conn(s, conn);
    if s.len() == 0 {
    } else {
        let prev = s.drop_last();
        lemma_without_conn_spec(prev, conn);
        let wp = without_conn(prev, conn);
        assert forall|i: int| 0 <= i < prev.len() implies s.contains(prev[i]) by {
            assert(s[i] == prev[i]);
        }
        if distinct_keys(s) {
            assert forall|i: int, j: int| 0 <= i < j < prev.len() implies #[trigger] key_of(
                prev[i],
            ) != #[trigger] key_of(prev[j]) by {
                assert(key_of(s[i]) != key_of(s[j]));
            }
            assert(distinct_keys(prev));
        }
        assert forall|i: int| 0 <= i < w.len() implies s.contains(#[trigger] w[i]) && w[i].conn
            != conn by {
            if i < wp.len() {
                assert(prev.contains(wp[i]));
                let j = choose|j: int| 0 <= j < prev.len() && prev[j] == wp[i];
                assert(s[j] == wp[i]);
            } else {
                assert(w[i] == s.last());
                assert(s[s.len() - 1] == s.last());
            }
        }
        assert forall|i: int| 0 <= i < s.len() && (#[trigger] s[i]).conn != conn implies w.contains(
            s[i],
        ) by {
            if i < prev.len() {
                assert(prev[i] == s[i]);
                assert(wp.contains(prev[i]));
                let m = choose|m: int| 0 <= m < wp.len() && wp[m] == s[i];
                if s.last().conn == conn {
                    assert(w[m] == s[i]);
                } else {
                    assert(w[m] == s[i]);
                }
            } else {
                assert(s[i] == s.last());
                assert(w[w.len() - 1] == s.last());
            }
        }
        if distinct_keys(s) && s.last().conn != conn {
            assert forall|i: int, j: int| 0 <= i < j < w.len() implies #[trigger] key_of(w[i])
                != #[trigger] key_of(w[j]) by {
                if j < wp.len() {
                    assert(key_of(wp[i]) != key_of(wp[j]));
                } else {
                    assert(w[j] == s.last());
                    assert(prev.contains(wp[i]));
                    let m = choose|m: int| 0 <= m < prev.len() && prev[m] == wp[i];
                    assert(key_of(s[m]) != key_of(s[s.len() - 1]));
                }
            }
        }
        assert forall|k2: (u64, u64)| #[trigger] seq_has_key(w, k2) implies seq_has_key(s, k2) by {
            let i = choose|i: int| 0 <= i < w.len() && #[trigger] key_of(w[i]) == k2;
            assert(s.contains(w[i]));
            let j = choose|j: int| 0 <= j < s.len() && s[j] == w[i];
            assert(key_of(s[j]) == k2);
        }
    }
}

/// Law of the broadcast fan-out: from the registry rows and a sender, the
/// target list picks exactly the entries of other connections — every index
/// it names is a registered entry of another connection, indices strictly
/// increase (so no entry is hit twice), and every entry of another
/// connection is named.
pub proof fn lemma_broadcast_targets<H>(s: Seq<Entry<H>>, sender: u64)
    ensures
        forall|j: int|
            0 <= j < spec_targets(s, sender).len() ==> 0 <= #[trigger] spec_targets(s, sender)[j]
                < s.len() && s[spec_targets(s, sender)[j]].conn != sender,
        forall|j1: int, j2: int|
            0 <= j1 < j2 < spec_targets(s, sender).len() ==> #[trigger] spec_targets(s, sender)[j1]
                < #[trigger] spec_targets(s, sender)[j2],
        forall|i: int|
            0 <= i < s.len() && (#[trigger] s[i]).conn != sender ==> spec_targets(
                s,
                sender,
            ).contains(i),
    decreases s.len(),
{
    let t = spec_targets(s, sender);
    if s.len() == 0 {
    } else {
        let prev = s.drop_last();
        lemma_broadcast_targets(prev, sender);
        let tp = spec_targets(prev, sender);
        assert forall|j: int| 0 <= j < t.len() implies 0 <= #[trigger] t[j] < s.len()
            && s[t[j]].conn != sender by {
            if j < tp.len() {
                assert(t[j] == tp[j]);
                assert(prev[tp[j]] == s[tp[j]]);
            } else {
                assert(s.last().conn != sender);
                assert(t[j] == s.len() - 1);
            }
        }
        assert forall|i: int| 0 <= i < s.len() && (#[trigger] s[i]).conn != sender implies
            t.contains(i) by {
            if i < prev.len() {
                assert(prev[i] == s[i]);
                assert(tp.contains(i));
                let m = choose|m: int| 0 <= m < tp.len() && tp[m] == i;
                assert(t[m] == i);
            } else {
                assert(s[i] == s.last());
                assert(t[t.len() - 1] == i);
            }
        }
    }
}

/// Law of consistent bulk registration: registering any run of pairwise
/// distinct fresh keys, in any order the tasks happen to take, leaves the
/// registry with exactly one entry more per key, all keys distinct, the
/// new keys present and every other key untouched.
pub proof fn lemma_register_all<H>(s: Seq<Entry<H>>, added: Seq<Entry<H>>)
    requires
        distinct_keys(s + added),
    ensures
        (s + added).len() == s.len() + added.len(),
        forall|j: int| 0 <= j < added.len() ==> seq_has_key(s + added, key_of(#[trigger] added[j])),
        forall|k2: (u64, u64)|
            #[trigger] seq_has_key(s + added, k2) <==> seq_has_key(s, k2) || seq_has_key(
                added,
                k2,
            ),
{
    let t = s + added;
    assert forall|j: int| 0 <= j < added.len() implies seq_has_key(
        t,
        key_of(#[trigger] added[j]),
    ) by {
        assert(t[s.len() + j] == added[j]);
        assert(key_of(t[s.len() + j]) == key_of(added[j]));
    }
    assert forall|k2: (u64, u64)| #[trigger] seq_has_key(t, k2) <==> seq_has_key(s, k2)
        || seq_has_key(added, k2) by {
        if seq_has_key(t, k2) {
            let i = choose|i: int| 0 <= i < t.len() && #[trigger] key_of(t[i]) == k2;
            if i < s.len() {
                assert(key_of(s[i]) == k2);
            } else {
                assert(key_of(added[i - s.len()]) == k2);
            }
        }
        if seq_has_key(s, k2) {
            let i = choose|i: int| 0 <= i < s.len() && #[trigger] key_of(s[i]) == k2;
            assert(key_of(t[i]) == k2);
        }
        if seq_has_key(added, k2) {
            let i = choose|i: int| 0 <= i < added.len() && #[trigger] key_of(added[i]) == k2;
            assert(key_of(t[s.len() + i]) == k2);
        }
    }
}

} // verus!

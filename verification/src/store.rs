//! The session transcript store.
//!
//! A session owns an ordered, append-only log of encoded message records
//! and a deadline: every successful append resets the deadline to the
//! configured time-to-live from now, and a session past its deadline reads
//! as absent. Reads never fail the caller: an absent session, an expired
//! one, or one whose stored records do not all decode all read as the
//! empty history.
//!
//! `SessionStore` is the store itself, with the full contract proved:
//! appends of batches are kept exactly once each, in append order, and
//! sessions do not disturb one another. `RedisProvider` is the computing
//! core of the redis-backed deployment of the same layout: it owns the key
//! scheme and the record codec, while the transport calls (list append,
//! range read, expiry) happen outside the library against the same
//! contract.

use vstd::prelude::*;
use vstd::string::*;
use crate::codec::{
    decode_message, decode_message_view, encode_message, encode_message_view,
    lemma_codec_round_trip,
};
use crate::messages::{ChatMessage, MessageView};

verus! {

/// Addition that stops at the largest representable value.
pub open spec fn sat_add_spec(a: u64, b: u64) -> u64 {
    if a + b > u64::MAX {
        u64::MAX
    } else {
        (a + b) as u64
    }
}

fn sat_add(a: u64, b: u64) -> (r: u64)
    ensures
        r == sat_add_spec(a, b),
{
    if a > u64::MAX - b {
        u64::MAX
    } else {
        a + b
    }
}

/// Whether two texts are the same sequence of characters.
pub(crate) fn str_eq(a: &str, b: &str) -> (r: bool)
    ensures
        r == (a@ == b@),
{
    let na = a.unicode_len();
    let nb = b.unicode_len();
    if na != nb {
        proof {
            if a@ == b@ {
                assert(a@.len() == b@.len());
            }
        }
        return false;
    }
    let mut i: usize = 0;
    while i < na
        invariant
            i <= na,
            na == a@.len(),
            na == b@.len(),
            forall|j: int| 0 <= j < i ==> a@[j] == b@[j],
        decreases na - i,
    {
        if a.get_char(i) != b.get_char(i) {
            proof {
                if a@ == b@ {
                    assert(a@[i as int] == b@[i as int]);
                }
            }
            return false;
        }
        i += 1;
    }
    proof {
        assert(a@ =~= b@);
    }
    true
}

/// The stored records of a batch of messages, one canonical record each.
pub open spec fn encode_batch_spec(batch: Seq<MessageView>) -> Seq<Seq<char>> {
    Seq::new(batch.len(), |i: int| encode_message_view(batch[i]))
}

/// What a list of stored records reads as: the decoded messages when every
/// record decodes, and the empty history otherwise.
pub open spec fn decode_history_spec(entries: Seq<Seq<char>>) -> Seq<MessageView> {
    if forall|i: int| 0 <= i < entries.len() ==> decode_message_view(#[trigger] entries[i]) is Some {
        Seq::new(entries.len(), |i: int| decode_message_view(entries[i]).unwrap())
    } else {
        Seq::empty()
    }
}

/// Encode a batch of messages into their stored records.
pub fn encode_batch(batch: &Vec<ChatMessage>) -> (r: Vec<String>)
    ensures
        r.deep_view() == encode_batch_spec(batch.deep_view()),
{
    let mut out: Vec<String> = Vec::new();
    let n = batch.len();
    let mut i: usize = 0;
    while i < n
        invariant
            i <= n,
            n == batch.len(),
            out.len() == i,
            forall|j: int| 0 <= j < i ==> out@[j]@ == encode_message_view(batch@[j]@),
        decreases n - i,
    {
        let rec = encode_message(&batch[i]);
        out.push(rec);
        i += 1;
    }
    proof {
        assert(out.deep_view() =~= encode_batch_spec(batch.deep_view()));
    }
    out
}

/// Decode a list of stored records; any malformed record makes the whole
/// history read as empty rather than failing.
pub fn decode_history(entries: &Vec<String>) -> (r: Vec<ChatMessage>)
    ensures
        r.deep_view() == decode_history_spec(entries.deep_view()),
{
    let mut out: Vec<ChatMessage> = Vec::new();
    let n = entries.len();
    let mut i: usize = 0;
    while i < n
        invariant
            i <= n,
            n == entries.len(),
            out.len() == i,
            forall|j: int| 0 <= j < i ==> decode_message_view(#[trigger] entries@[j]@) is Some
                && out@[j]@ == decode_message_view(entries@[j]@).unwrap(),
        decreases n - i,
    {
        match decode_message(entries[i].as_str()) {
            Some(m) => {
                out.push(m);
            },
            None => {
                let empty: Vec<ChatMessage> = Vec::new();
                proof {
                    assert(entries.deep_view()[i as int] == entries@[i as int]@);
                    assert(!(forall|k: int|
                        0 <= k < entries.deep_view().len() ==> decode_message_view(
                            #[trigger] entries.deep_view()[k],
                        ) is Some));
                    assert(empty.deep_view() =~= decode_history_spec(entries.deep_view()));
                }
                return empty;
            },
        }
        i += 1;
    }
    proof {
        assert(forall|k: int|
            0 <= k < entries.deep_view().len() ==> decode_message_view(
                #[trigger] entries.deep_view()[k],
            ) is Some) by {
            assert(forall|k: int|
                0 <= k < entries@.len() ==> entries.deep_view()[k] == #[trigger] entries@[k]@);
        }
        assert(out.deep_view() =~= decode_history_spec(entries.deep_view()));
    }
    out
}

/// Appending well-formed records extends the read history by exactly the
/// batch: nothing already stored is lost or reordered, nothing is read
/// twice.
pub proof fn lemma_decode_history_append(rs: Seq<Seq<char>>, batch: Seq<MessageView>)
    requires
        forall|i: int| 0 <= i < rs.len() ==> decode_message_view(#[trigger] rs[i]) is Some,
    ensures
        decode_history_spec(rs + encode_batch_spec(batch)) == decode_history_spec(rs) + batch,
{
    let all = rs + encode_batch_spec(batch);
    assert forall|i: int| 0 <= i < all.len() implies decode_message_view(#[trigger] all[i]) is Some by {
        if i < rs.len() {
            assert(all[i] == rs[i]);
        } else {
            assert(all[i] == encode_message_view(batch[i - rs.len()]));
            lemma_codec_round_trip(batch[i - rs.len()]);
        }
    }
    assert forall|i: int| 0 <= i < all.len() implies decode_message_view(all[i]).unwrap() == (
    decode_history_spec(rs) + batch)[i] by {
        if i < rs.len() {
            assert(all[i] == rs[i]);
        } else {
            assert(all[i] == encode_message_view(batch[i - rs.len()]));
            lemma_codec_round_trip(batch[i - rs.len()]);
        }
    }
    assert(decode_history_spec(all) =~= decode_history_spec(rs) + batch);
}

struct SessionEntry {
    id: String,
    records: Vec<String>,
    deadline: u64,
}

/// Taking a slot out of a sequence and putting another entry back in its
/// place leaves every other slot as it was.
proof fn lemma_slot_update(
    pre_s: Seq<SessionEntry>,
    post_s: Seq<SessionEntry>,
    i: int,
    e: SessionEntry,
)
    requires
        0 <= i < pre_s.len(),
        post_s == pre_s.remove(i).insert(i, e),
    ensures
        post_s.len() == pre_s.len(),
        post_s[i] == e,
        forall|j: int| 0 <= j < post_s.len() && j != i ==> post_s[j] == pre_s[j],
{
    assert(post_s =~= pre_s.update(i, e));
}

/// The session transcript store: per-session append-only logs of encoded
/// records, bounded by a time-to-live that every append resets.
pub struct SessionStore {
    ttl: u64,
    sessions: Vec<SessionEntry>,
}

impl SessionStore {
    /// The configured time-to-live, in the same unit as `now`.
    pub closed spec fn spec_ttl(self) -> u64 {
        self.ttl
    }

    /// Whether a session with this id is present, expired or not.
    pub closed spec fn spec_has(self, id: Seq<char>) -> bool {
        exists|i: int| 0 <= i < self.sessions.len() && self.sessions[i].id@ == id
    }

    closed spec fn idx_of(self, id: Seq<char>) -> int {
        choose|i: int| 0 <= i < self.sessions.len() && self.sessions[i].id@ == id
    }

    /// The stored records of a present session.
    pub closed spec fn spec_records(self, id: Seq<char>) -> Seq<Seq<char>> {
        self.sessions[self.idx_of(id)].records.deep_view()
    }

    /// The deadline of a present session.
    pub closed spec fn spec_deadline(self, id: Seq<char>) -> u64 {
        self.sessions[self.idx_of(id)].deadline
    }

    /// Well-formed: ids are unique and every stored record decodes.
    pub closed spec fn wf(self) -> bool {
        (forall|i: int, j: int|
            0 <= i < j < self.sessions.len() ==> self.sessions[i].id@ != self.sessions[j].id@)
            && (forall|i: int, k: int|
            0 <= i < self.sessions.len() && 0 <= k < self.sessions[i].records.len()
                ==> decode_message_view(#[trigger] self.sessions[i].records[k]@) is Some)
    }

    /// A session is live when it is present and its deadline has not passed.
    pub open spec fn live(self, id: Seq<char>, now: u64) -> bool {
        self.spec_has(id) && now <= self.spec_deadline(id)
    }

    /// What a read of the session returns: the decoded log of a live
    /// session, and the empty history otherwise.
    pub open spec fn transcript(self, id: Seq<char>, now: u64) -> Seq<MessageView> {
        if self.live(id, now) {
            decode_history_spec(self.spec_records(id))
        } else {
            Seq::empty()
        }
    }

    /// The session with this id is in the same state in both stores.
    pub open spec fn same_at(self, post: SessionStore, id: Seq<char>) -> bool {
        self.spec_has(id) == post.spec_has(id) && (self.spec_has(id) ==> self.spec_records(id)
            == post.spec_records(id) && self.spec_deadline(id) == post.spec_deadline(id))
    }

    proof fn lemma_idx_unique(self, id: Seq<char>, i: int)
        requires
            self.wf(),
            0 <= i < self.sessions.len(),
            self.sessions[i].id@ == id,
        ensures
            self.spec_has(id),
            self.idx_of(id) == i,
    {
        assert(self.spec_has(id));
        let j = self.idx_of(id);
        assert(0 <= j < self.sessions.len() && self.sessions[j].id@ == id);
        if i < j {
            assert(self.sessions[i].id@ != self.sessions[j].id@);
        } else if j < i {
            assert(self.sessions[j].id@ != self.sessions[i].id@);
        }
    }

    /// An empty store with the given time-to-live.
    pub fn new(ttl: u64) -> (r: Self)
        ensures
            r.wf(),
            r.spec_ttl() == ttl,
            forall|id: Seq<char>| !r.spec_has(id),
    {
        SessionStore { ttl, sessions: Vec::new() }
    }

    fn find(&self, session_id: &str) -> (r: Option<usize>)
        ensures
            match r {
                Some(i) => i < self.sessions.len() && self.sessions[i as int].id@ == session_id@,
                None => !self.spec_has(session_id@),
            },
    {
        let n = self.sessions.len();
        let mut i: usize = 0;
        while i < n
            invariant
                i <= n,
                n == self.sessions.len(),
                forall|j: int| 0 <= j < i ==> self.sessions[j].id@ != session_id@,
            decreases n - i,
        {
            if str_eq(self.sessions[i].id.as_str(), session_id) {
                return Some(i);
            }
            i += 1;
        }
        None
    }

    /// Read the whole history of a session. Never fails: an absent or
    /// expired session, or one with a record that does not decode, reads
    /// as empty.
    pub fn read_all(&self, session_id: &str, now: u64) -> (r: Vec<ChatMessage>)
        requires
            self.wf(),
        ensures
            r.deep_view() == self.transcript(session_id@, now),
    {
        match self.find(session_id) {
            None => {
                let empty: Vec<ChatMessage> = Vec::new();
                proof {
                    assert(empty.deep_view() =~= Seq::<MessageView>::empty());
                }
                empty
            },
            Some(i) => {
                proof {
                    self.lemma_idx_unique(session_id@, i as int);
                }
                if now <= self.sessions[i].deadline {
                    decode_history(&self.sessions[i].records)
                } else {
                    let empty: Vec<ChatMessage> = Vec::new();
                    proof {
                        assert(empty.deep_view() =~= Seq::<MessageView>::empty());
                    }
                    empty
                }
            },
        }
    }

    /// Append a batch to a session's log, all or nothing, and reset the
    /// session's deadline to one time-to-live from now. An empty batch
    /// changes nothing. A session read at any time up to the new deadline
    /// then returns what it returned before the append, with exactly the
    /// batch added after it; every other session is untouched.
    #[verifier::rlimit(20)]
    pub fn append(&mut self, session_id: &str, batch: &Vec<ChatMessage>, now: u64)
        requires
            old(self).wf(),
        ensures
            final(self).wf(),
            final(self).spec_ttl() == old(self).spec_ttl(),
            batch.len() == 0 ==> *final(self) == *old(self),
            batch.len() > 0 ==> {
                &&& final(self).spec_has(session_id@)
                &&& final(self).spec_deadline(session_id@) == sat_add_spec(
                    now,
                    old(self).spec_ttl(),
                )
                &&& final(self).spec_records(session_id@) == (if old(self).live(session_id@, now) {
                    old(self).spec_records(session_id@)
                } else {
                    Seq::<Seq<char>>::empty()
                }) + encode_batch_spec(batch.deep_view())
                &&& forall|other: Seq<char>|
                    other != session_id@ ==> #[trigger] old(self).same_at(*final(self), other)
                &&& forall|t: u64|
                    t <= final(self).spec_deadline(session_id@) ==> final(self).transcript(
                        session_id@,
                        t,
                    ) == old(self).transcript(session_id@, now) + batch.deep_view()
            },
    {
        if batch.len() == 0 {
            return ;
        }
        let mut encoded = encode_batch(batch);
        let deadline = sat_add(now, self.ttl);
        let found = self.find(session_id);
        match found {
            Some(i) => {
                proof {
                    self.lemma_idx_unique(session_id@, i as int);
                }
                let mut entry = self.sessions.remove(i);
                let ghost pre_records = entry.records.deep_view();
                if now <= entry.deadline {
                    entry.records.append(&mut encoded);
                    proof {
                        assert(entry.records.deep_view() =~= pre_records + encode_batch_spec(
                            batch.deep_view(),
                        ));
                    }
                } else {
                    entry.records = encoded;
                    proof {
                        assert(entry.records.deep_view() =~= Seq::<Seq<char>>::empty()
                            + encode_batch_spec(batch.deep_view()));
                    }
                }
                entry.deadline = deadline;
                let ghost entry_snap = entry;
                self.sessions.insert(i, entry);
                proof {
                    let pre = *old(self);
                    lemma_slot_update(pre.sessions@, self.sessions@, i as int, entry_snap);
                    assert forall|k: int|
                        0 <= k < pre.sessions.len() && k != i implies #[trigger] pre.sessions[k].id@
                        != session_id@ by {
                        if k < i {
                            assert(pre.sessions[k].id@ != pre.sessions[i as int].id@);
                        } else {
                            assert(pre.sessions[i as int].id@ != pre.sessions[k].id@);
                        }
                    }
                    self.lemma_after_update(pre, session_id@, i as int, batch.deep_view(), now);
                }
            },
            None => {
                let entry = SessionEntry {
                    id: session_id.to_owned(),
                    records: encoded,
                    deadline,
                };
                proof {
                    assert(entry.records.deep_view() =~= Seq::<Seq<char>>::empty()
                        + encode_batch_spec(batch.deep_view()));
                }
                self.sessions.push(entry);
                proof {
                    let pre = *old(self);
                    let i = self.sessions@.len() - 1;
                    assert(forall|k: int|
                        0 <= k < pre.sessions.len() ==> #[trigger] pre.sessions[k].id@
                            != session_id@);
                    assert(forall|j: int|
                        0 <= j < i ==> #[trigger] self.sessions@[j] == pre.sessions@[j]);
                    self.lemma_after_update(pre, session_id@, i, batch.deep_view(), now);
                }
            },
        }
    }

    /// After an append wrote the updated entry at index `i`, the store
    /// satisfies the append contract.
    #[verifier::rlimit(20)]
    proof fn lemma_after_update(
        self,
        pre: SessionStore,
        id: Seq<char>,
        i: int,
        batch: Seq<MessageView>,
        now: u64,
    )
        requires
            pre.wf(),
            0 <= i < self.sessions.len(),
            self.ttl == pre.ttl,
            self.sessions[i].id@ == id,
            self.sessions[i].deadline == sat_add_spec(now, pre.ttl),
            self.sessions[i].records.deep_view() == (if pre.live(id, now) {
                pre.spec_records(id)
            } else {
                Seq::<Seq<char>>::empty()
            }) + encode_batch_spec(batch),
            // every other slot carries the pre store's entry at the same
            // index, and those are all the pre store's other entries
            pre.sessions.len() <= self.sessions.len(),
            forall|j: int|
                0 <= j < self.sessions.len() && j != i ==> j < pre.sessions.len()
                    && #[trigger] self.sessions[j] == pre.sessions[j],
            forall|k: int|
                0 <= k < pre.sessions.len() && k != i ==> #[trigger] pre.sessions[k].id@ != id,
            i < pre.sessions.len() ==> pre.sessions[i].id@ == id,
        ensures
            self.wf(),
            self.spec_has(id),
            self.spec_deadline(id) == sat_add_spec(now, pre.ttl),
            self.spec_records(id) == (if pre.live(id, now) {
                pre.spec_records(id)
            } else {
                Seq::<Seq<char>>::empty()
            }) + encode_batch_spec(batch),
            forall|other: Seq<char>| other != id ==> pre.same_at(self, other),
            forall|t: u64|
                t <= self.spec_deadline(id) ==> self.transcript(id, t) == pre.transcript(id, now)
                    + batch,
    {
        let base: Seq<Seq<char>> = if pre.live(id, now) {
            pre.spec_records(id)
        } else {
            Seq::<Seq<char>>::empty()
        };
        if pre.live(id, now) {
            let pi = pre.idx_of(id);
            assert(0 <= pi < pre.sessions.len() && pre.sessions[pi].id@ == id);
            assert(pi == i);
            assert(forall|k: int|
                0 <= k < base.len() ==> #[trigger] base[k] == pre.sessions[pi].records[k]@);
        }
        // uniqueness carries over index by index
        assert forall|j1: int, j2: int|
            0 <= j1 < j2 < self.sessions.len() implies self.sessions[j1].id@
            != self.sessions[j2].id@ by {
            if j1 != i && j2 != i {
                assert(self.sessions[j1] == pre.sessions[j1]);
                assert(self.sessions[j2] == pre.sessions[j2]);
            } else if j1 == i {
                assert(self.sessions[j2] == pre.sessions[j2]);
            } else {
                assert(self.sessions[j1] == pre.sessions[j1]);
            }
        }
        assert(forall|k: int|
            0 <= k < base.len() ==> decode_message_view(#[trigger] base[k]) is Some);
        // well-formedness: uniqueness is a premise; every record decodes
        assert forall|a: int, k: int|
            0 <= a < self.sessions.len() && 0 <= k < self.sessions[a].records.len() implies decode_message_view(
            #[trigger] self.sessions[a].records[k]@,
        ) is Some by {
            assert(self.sessions[a].records[k]@ == self.sessions[a].records.deep_view()[k]);
            if a == i {
                if k < base.len() {
                    assert(self.sessions[a].records.deep_view()[k] == base[k]);
                } else {
                    let kk = k - base.len();
                    lemma_codec_round_trip(batch[kk]);
                    assert(self.sessions[a].records.deep_view().len() == base.len()
                        + encode_batch_spec(batch).len());
                    assert(kk < batch.len());
                    assert((base + encode_batch_spec(batch))[k] == encode_batch_spec(batch)[kk]);
                    assert(encode_batch_spec(batch)[kk] == encode_message_view(batch[kk]));
                }
            } else {
                assert(self.sessions[a] == pre.sessions[a]);
                assert(pre.sessions[a].records[k]@ == pre.sessions[a].records.deep_view()[k]);
            }
        }
        assert(self.wf());
        self.lemma_idx_unique(id, i);
        // other sessions are untouched
        assert forall|other: Seq<char>| other != id implies pre.same_at(self, other) by {
            if pre.spec_has(other) {
                let k = pre.idx_of(other);
                assert(0 <= k < pre.sessions.len() && pre.sessions[k].id@ == other);
                assert(k != i);
                assert(self.sessions[k] == pre.sessions[k]);
                self.lemma_idx_unique(other, k);
                pre.lemma_idx_unique(other, k);
            }
            if self.spec_has(other) {
                let j = self.idx_of(other);
                assert(0 <= j < self.sessions.len() && self.sessions[j].id@ == other);
                assert(j != i);
                assert(self.sessions[j] == pre.sessions[j]);
                assert(pre.spec_has(other));
            }
        }
        // the headline: reads up to the new deadline see the old history
        // plus the batch
        lemma_decode_history_append(base, batch);
        assert(decode_history_spec(base) == pre.transcript(id, now)) by {
            if !pre.live(id, now) {
                assert(decode_history_spec(Seq::<Seq<char>>::empty()) =~= Seq::<
                    MessageView,
                >::empty());
            }
        }
        assert forall|t: u64|
            t <= self.spec_deadline(id) implies self.transcript(id, t) == pre.transcript(id, now)
            + batch by {
            assert(self.live(id, t));
            assert(self.spec_records(id) == base + encode_batch_spec(batch));
        }
    }
}

/// A read immediately after a run of successful appends returns the
/// appended batches concatenated in append order, exactly once each:
/// nothing lost, nothing duplicated. Stated for two consecutive appends
/// to one session, over the transition that `append` establishes; the
/// longer run follows by repeating the step. The same statement shows
/// that two appends of disjoint batches both survive, whichever ran
/// first.
pub proof fn lemma_appends_accumulate(
    s0: SessionStore,
    s1: SessionStore,
    s2: SessionStore,
    id: Seq<char>,
    b1: Seq<MessageView>,
    b2: Seq<MessageView>,
    t0: u64,
    t1: u64,
    t2: u64,
)
    requires
        t1 <= s1.spec_deadline(id),
        t2 <= s2.spec_deadline(id),
        forall|t: u64| t <= s1.spec_deadline(id) ==> s1.transcript(id, t) == s0.transcript(id, t0)
            + b1,
        forall|t: u64| t <= s2.spec_deadline(id) ==> s2.transcript(id, t) == s1.transcript(id, t1)
            + b2,
    ensures
        s2.transcript(id, t2) == s0.transcript(id, t0) + b1 + b2,
{
    assert(s1.transcript(id, t1) == s0.transcript(id, t0) + b1);
    assert(s2.transcript(id, t2) == (s0.transcript(id, t0) + b1) + b2);
    assert((s0.transcript(id, t0) + b1) + b2 =~= s0.transcript(id, t0) + b1 + b2);
}

/// The computing core of the redis-backed deployment: the key scheme and
/// the stored-record codec, with the configured time-to-live.
#[derive(Clone)]
pub struct RedisProvider {
    base_path: String,
    ttl: u64,
}

impl RedisProvider {
    pub closed spec fn spec_base_path(&self) -> Seq<char> {
        self.base_path@
    }

    pub closed spec fn spec_ttl(&self) -> u64 {
        self.ttl
    }

    pub fn new(base_path: &str, ttl: u64) -> (r: Self)
        ensures
            r.spec_base_path() == base_path@,
            r.spec_ttl() == ttl,
    {
        RedisProvider { base_path: base_path.to_owned(), ttl }
    }

    /// The key a session's log is stored under.
    pub fn get_key(&self, session_id: &str) -> (r: String)
        ensures
            r@ == self.spec_base_path() + ":"@ + session_id@,
    {
        let mut key = self.base_path.clone();
        key.append(":");
        key.append(session_id);
        key
    }

    pub fn ttl(&self) -> (r: u64)
        ensures
            r == self.spec_ttl(),
    {
        self.ttl
    }
}

} // verus!

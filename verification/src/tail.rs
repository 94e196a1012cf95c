//! The transcript tailer: a set of watched session files, a byte offset per
//! file, and the incremental extraction of complete JSON lines from the
//! bytes appended since the previous poll.
//!
//! File I/O happens outside the library.  A poll is split in two verified
//! halves: `poll_targets` says which files to read and from which offset,
//! and `apply_poll` consumes what was observed, advances the offset, and
//! produces the events.  The offset never moves past the start of a
//! partial trailing line, and never past the observed end of the file.

use vstd::prelude::*;
use vstd::string::*;
use crate::jsonval::{json_parse, json_parses, json_value_of};
use crate::strutil::str_eq;

verus! {

/// One event derived from polling a watched session file.
#[derive(Debug)]
pub enum SessionWatchEvent {
    /// One appended, complete, parseable JSON line.
    NewMessage { session_id: String, project_path: String, message: serde_json::Value },
    /// The watched file appeared.
    SessionCreated { session_id: String, project_path: String },
    /// The watched file no longer exists; the watch is dropped.
    SessionDeleted { session_id: String, project_path: String },
    /// Reading failed without implying deletion.
    Error { session_id: String, error: String },
}

/// The mutable record the tailer keeps per watched session.
pub struct WatchedSession {
    pub session_id: String,
    pub path: String,
    pub project_path: String,
    pub last_position: u64,
}

/// What the tailer asks the caller to read: this file, from this offset.
pub struct PollTarget {
    pub session_id: String,
    pub path: String,
    pub project_path: String,
    pub last_position: u64,
}

/// What the caller observed when it tried to read a watched file.
pub enum PollOutcome {
    /// The file does not exist any more.
    Missing,
    /// The file has this many bytes, and these are the bytes from the
    /// recorded offset to the end (empty when the file shrank).
    Read { file_size: u64, appended: Vec<u8> },
    /// Reading failed for a reason other than deletion.
    ReadError { message: String },
}

// ---------------------------------------------------------------------------
// Complete-line extraction.

/// The complete lines in `data`, given that the line being accumulated so
/// far holds `cur`: a line ends at each newline byte and does not include
/// it; bytes after the last newline belong to no complete line.
pub open spec fn lines_acc(data: Seq<u8>, cur: Seq<u8>) -> Seq<Seq<u8>>
    decreases data.len(),
{
    if data.len() == 0 {
        Seq::empty()
    } else if data.first() == 10 {
        seq![cur] + lines_acc(data.drop_first(), Seq::empty())
    } else {
        lines_acc(data.drop_first(), cur.push(data.first()))
    }
}

/// The complete (newline-terminated) lines in `data`.
pub open spec fn complete_lines(data: Seq<u8>) -> Seq<Seq<u8>> {
    lines_acc(data, Seq::empty())
}

/// How many bytes of `data` belong to complete lines: one past the last
/// newline, or zero when there is none.
pub open spec fn consumed_len(data: Seq<u8>) -> nat
    decreases data.len(),
{
    if data.len() == 0 {
        0
    } else if data.last() == 10 {
        data.len()
    } else {
        consumed_len(data.drop_last())
    }
}

/// How many of the lines parse as JSON values.
pub open spec fn parse_count(lines: Seq<Seq<u8>>) -> nat
    decreases lines.len(),
{
    if lines.len() == 0 {
        0
    } else {
        parse_count(lines.drop_last()) + (if json_parses(lines.last()) { 1nat } else { 0nat })
    }
}

/// The parses of the parseable lines, in order.
pub open spec fn parsed_records(lines: Seq<Seq<u8>>) -> Seq<serde_json::Value>
    decreases lines.len(),
{
    if lines.len() == 0 {
        Seq::empty()
    } else {
        let rest = parsed_records(lines.drop_last());
        match json_value_of(lines.last()) {
            Some(v) => rest.push(v),
            None => rest,
        }
    }
}

/// There is one parsed record per parseable line.
pub proof fn lemma_parsed_records_len(lines: Seq<Seq<u8>>)
    ensures
        parsed_records(lines).len() == parse_count(lines),
    decreases lines.len(),
{
    if lines.len() > 0 {
        lemma_parsed_records_len(lines.drop_last());
    }
}

pub proof fn lemma_consumed_le_len(data: Seq<u8>)
    ensures
        consumed_len(data) <= data.len(),
    decreases data.len(),
{
    if data.len() > 0 && data.last() != 10 {
        lemma_consumed_le_len(data.drop_last());
    }
}

proof fn lemma_lines_acc_concat(a: Seq<u8>, b: Seq<u8>, cur: Seq<u8>)
    requires
        a.len() == 0 ==> cur.len() == 0,
        a.len() > 0 ==> a.last() == 10,
    ensures
        lines_acc(a + b, cur) == lines_acc(a, cur) + lines_acc(b, Seq::empty()),
    decreases a.len(),
{
    if a.len() == 0 {
        assert(a + b =~= b);
        assert(cur =~= Seq::<u8>::empty());
        assert(lines_acc(a, cur) + lines_acc(b, Seq::empty())
            =~= lines_acc(b, Seq::empty()));
    } else {
        let ab = a + b;
        assert(ab.len() > 0);
        assert(ab.first() == a.first());
        assert(ab.drop_first() =~= a.drop_first() + b);
        if a.first() == 10 {
            lemma_lines_acc_concat(a.drop_first(), b, Seq::empty());
            assert(seq![cur] + (lines_acc(a.drop_first(), Seq::empty()) + lines_acc(
                b,
                Seq::empty(),
            )) =~= (seq![cur] + lines_acc(a.drop_first(), Seq::empty())) + lines_acc(
                b,
                Seq::empty(),
            ));
        } else {
            assert(a.len() > 1);
            assert(a.drop_first().last() == a.last());
            lemma_lines_acc_concat(a.drop_first(), b, cur.push(a.first()));
        }
    }
}

proof fn lemma_parse_count_concat(l1: Seq<Seq<u8>>, l2: Seq<Seq<u8>>)
    ensures
        parse_count(l1 + l2) == parse_count(l1) + parse_count(l2),
    decreases l2.len(),
{
    if l2.len() == 0 {
        assert(l1 + l2 =~= l1);
    } else {
        assert((l1 + l2).drop_last() =~= l1 + l2.drop_last());
        assert((l1 + l2).last() == l2.last());
        lemma_parse_count_concat(l1, l2.drop_last());
    }
}

proof fn lemma_parsed_records_concat(l1: Seq<Seq<u8>>, l2: Seq<Seq<u8>>)
    ensures
        parsed_records(l1 + l2) == parsed_records(l1) + parsed_records(l2),
    decreases l2.len(),
{
    if l2.len() == 0 {
        assert(l1 + l2 =~= l1);
        assert(parsed_records(l1) + parsed_records(l2) =~= parsed_records(l1));
    } else {
        assert((l1 + l2).drop_last() =~= l1 + l2.drop_last());
        assert((l1 + l2).last() == l2.last());
        lemma_parsed_records_concat(l1, l2.drop_last());
        match json_value_of(l2.last()) {
            Some(v) => {
                assert((parsed_records(l1) + parsed_records(l2.drop_last())).push(v)
                    =~= parsed_records(l1) + parsed_records(l2.drop_last()).push(v));
            },
            None => {},
        }
    }
}

/// Reading a fully consumed prefix and, later, the bytes appended after
/// it yields the same complete lines — and the same parsed records — as
/// reading everything at once: no record is replayed and none is lost.
/// Together with the offset bookkeeping of `apply_poll` this gives
/// exactly one `NewMessage`, carrying its own line's parse, per appended
/// complete line over a watch's lifetime.
pub proof fn lemma_no_replay_no_loss(a: Seq<u8>, b: Seq<u8>)
    requires
        consumed_len(a) == a.len(),
    ensures
        complete_lines(a + b) == complete_lines(a) + complete_lines(b),
        parse_count(complete_lines(a + b)) == parse_count(complete_lines(a)) + parse_count(
            complete_lines(b),
        ),
        parsed_records(complete_lines(a + b)) == parsed_records(complete_lines(a))
            + parsed_records(complete_lines(b)),
{
    if a.len() > 0 && a.last() != 10 {
        lemma_consumed_le_len(a.drop_last());
        assert(false);
    }
    lemma_lines_acc_concat(a, b, Seq::empty());
    lemma_parse_count_concat(complete_lines(a), complete_lines(b));
    lemma_parsed_records_concat(complete_lines(a), complete_lines(b));
}

/// Watching a key and then immediately unwatching it leaves the watched
/// set exactly as it was: every lookup answers as before, and the set that
/// started empty is empty again.  `w1` relates to `w0` as `watch_session`
/// promises, and `w2` to `w1` as `unwatch_session` promises; neither call
/// returns events.
pub proof fn lemma_watch_then_unwatch(
    w0: SessionWatcher,
    w1: SessionWatcher,
    w2: SessionWatcher,
    id: Seq<char>,
)
    requires
        w0.wf(),
        !w0.has_watch(id),
        w1.wf(),
        w1.has_watch(id),
        forall|o: Seq<char>| o != id ==> w1.entry_for(o) == w0.entry_for(o),
        w1.entries().len() == w0.entries().len() + 1,
        w2.wf(),
        !w2.has_watch(id),
        forall|o: Seq<char>| o != id ==> w2.entry_for(o) == w1.entry_for(o),
        w2.entries().len() == w1.entries().len() - 1,
    ensures
        w2.entries().len() == w0.entries().len(),
        forall|o: Seq<char>| w2.entry_for(o) == w0.entry_for(o),
        w0.entries().len() == 0 ==> w2.entries().len() == 0,
{
    assert forall|o: Seq<char>| w2.entry_for(o) == w0.entry_for(o) by {
        if o == id {
            assert(w2.entry_for(o) is None);
            assert(w0.entry_for(o) is None);
        }
    }
}

/// Extract the records in the complete lines of `data`, and how many bytes
/// they cover: exactly the parses of the parseable complete lines, in
/// file order.  Bytes of a partial trailing line are not consumed, so a
/// later read sees that line whole.
pub fn read_incremental(data: &Vec<u8>) -> (out: (Vec<serde_json::Value>, usize))
    ensures
        out.1 == consumed_len(data@),
        out.1 <= data@.len(),
        out.0@ == parsed_records(complete_lines(data@)),
        out.0@.len() == parse_count(complete_lines(data@)),
{
    let len = data.len();
    let mut records: Vec<serde_json::Value> = Vec::new();
    let mut cur: Vec<u8> = Vec::new();
    let mut consumed: usize = 0;
    let ghost mut done: Seq<Seq<u8>> = Seq::empty();
    let mut i: usize = 0;
    proof {
        assert(data@.subrange(0, 0) =~= Seq::<u8>::empty());
        assert(data@.subrange(0, len as int) =~= data@);
    }
    while i < len
        invariant
            len == data@.len(),
            i <= len,
            consumed <= i,
            cur@ == data@.subrange(consumed as int, i as int),
            consumed == consumed_len(data@.subrange(0, i as int)),
            complete_lines(data@) == done + lines_acc(
                data@.subrange(i as int, len as int),
                cur@,
            ),
            records@ == parsed_records(done),
            records@.len() == parse_count(done),
        decreases len - i,
    {
        let b = data[i];
        proof {
            let suf = data@.subrange(i as int, len as int);
            assert(suf.len() > 0);
            assert(suf.first() == data@[i as int]);
            assert(suf.drop_first() =~= data@.subrange(i + 1, len as int));
            assert(data@.subrange(0, i + 1).last() == data@[i as int]);
            assert(data@.subrange(0, i + 1).drop_last() =~= data@.subrange(0, i as int));
        }
        if b == 10u8 {
            proof {
                let suf = data@.subrange(i as int, len as int);
                assert(lines_acc(suf, cur@) == seq![cur@] + lines_acc(
                    data@.subrange(i + 1, len as int),
                    Seq::empty(),
                ));
                assert(done + (seq![cur@] + lines_acc(
                    data@.subrange(i + 1, len as int),
                    Seq::empty(),
                )) =~= done.push(cur@) + lines_acc(
                    data@.subrange(i + 1, len as int),
                    Seq::empty(),
                ));
                assert(done.push(cur@).drop_last() =~= done);
            }
            let parsed = json_parse(&cur);
            if let Some(v) = parsed {
                records.push(v);
            }
            proof {
                done = done.push(cur@);
            }
            cur = Vec::new();
            consumed = i + 1;
            proof {
                assert(data@.subrange(i + 1, i + 1) =~= Seq::<u8>::empty());
            }
        } else {
            cur.push(b);
            proof {
                let suf = data@.subrange(i as int, len as int);
                assert(lines_acc(suf, data@.subrange(consumed as int, i as int)) == lines_acc(
                    data@.subrange(i + 1, len as int),
                    data@.subrange(consumed as int, i as int).push(data@[i as int]),
                ));
                assert(data@.subrange(consumed as int, i as int).push(data@[i as int])
                    =~= data@.subrange(consumed as int, i + 1));
            }
        }
        i = i + 1;
    }
    proof {
        assert(data@.subrange(len as int, len as int) =~= Seq::<u8>::empty());
        assert(lines_acc(Seq::<u8>::empty(), cur@) =~= Seq::<Seq<u8>>::empty());
        assert(done + Seq::<Seq<u8>>::empty() =~= done);
        assert(data@.subrange(0, len as int) =~= data@);
        lemma_parsed_records_len(complete_lines(data@));
    }
    (records, consumed)
}

// ---------------------------------------------------------------------------
// The watched set.

/// The set of watched sessions, keyed by session id.
pub struct SessionWatcher {
    sessions: Vec<WatchedSession>,
}

/// Does the event carry exactly this new record for this session?
pub open spec fn is_new_message_for(
    ev: SessionWatchEvent,
    id: Seq<char>,
    project: Seq<char>,
    record: serde_json::Value,
) -> bool {
    match ev {
        SessionWatchEvent::NewMessage { session_id, project_path, message } => session_id@ == id
            && project_path@ == project && message == record,
        _ => false,
    }
}

impl SessionWatcher {
    pub closed spec fn entries(&self) -> Seq<WatchedSession> {
        self.sessions@
    }

    /// Session ids are unique across the watched set.
    pub open spec fn wf(&self) -> bool {
        forall|i: int, j: int|
            0 <= i < j < self.entries().len() ==> (#[trigger] self.entries()[i]).session_id@ != (
            #[trigger] self.entries()[j]).session_id@
    }

    pub open spec fn has_watch(&self, id: Seq<char>) -> bool {
        exists|k: int|
            0 <= k < self.entries().len() && (#[trigger] self.entries()[k]).session_id@ == id
    }

    pub open spec fn index_of(&self, id: Seq<char>) -> int {
        choose|k: int|
            0 <= k < self.entries().len() && (#[trigger] self.entries()[k]).session_id@ == id
    }

    /// The entry watched under this id, if any.
    pub open spec fn entry_for(&self, id: Seq<char>) -> Option<WatchedSession> {
        if self.has_watch(id) {
            Some(self.entries()[self.index_of(id)])
        } else {
            None
        }
    }

    /// Under well-formedness, any position holding the id is the position
    /// the lookup uses.
    pub proof fn lemma_index_unique(&self, id: Seq<char>, k: int)
        requires
            self.wf(),
            0 <= k < self.entries().len(),
            self.entries()[k].session_id@ == id,
        ensures
            self.has_watch(id),
            self.index_of(id) == k,
    {
        assert(self.has_watch(id));
        let k2 = self.index_of(id);
        if k2 != k {
            if k < k2 {
                assert(self.entries()[k].session_id@ != self.entries()[k2].session_id@);
            } else {
                assert(self.entries()[k2].session_id@ != self.entries()[k].session_id@);
            }
        }
    }

    /// An empty watched set.
    pub fn new() -> (w: SessionWatcher)
        ensures
            w.wf(),
            w.entries().len() == 0,
    {
        SessionWatcher { sessions: Vec::new() }
    }

    /// How many sessions are watched.
    pub fn session_count(&self) -> (n: usize)
        ensures
            n == self.entries().len(),
    {
        self.sessions.len()
    }

    /// Is anything watched at all?
    pub fn has_sessions(&self) -> (r: bool)
        ensures
            r == (self.entries().len() > 0),
    {
        self.sessions.len() > 0
    }

    fn find(&self, session_id: &str) -> (r: Option<usize>)
        requires
            self.wf(),
        ensures
            match r {
                Some(k) => k < self.entries().len() && self.entries()[k as int].session_id@
                    == session_id@ && self.has_watch(session_id@) && self.index_of(session_id@)
                    == k,
                None => !self.has_watch(session_id@),
            },
    {
        let n = self.sessions.len();
        let mut k: usize = 0;
        while k < n
            invariant
                self.wf(),
                n == self.entries().len(),
                k <= n,
                forall|j: int| 0 <= j < k ==> (#[trigger] self.entries()[j]).session_id@
                    != session_id@,
            decreases n - k,
        {
            if str_eq(self.sessions[k].session_id.as_str(), session_id) {
                proof {
                    self.lemma_index_unique(session_id@, k as int);
                }
                return Some(k);
            }
            k = k + 1;
        }
        None
    }

    /// Start watching: record the file's observed byte length as the
    /// starting offset, so pre-existing content is not replayed.  A watch
    /// that already exists under the id is replaced.
    pub fn watch_session(
        &mut self,
        session_id: &str,
        session_path: &str,
        project_path: &str,
        observed_len: u64,
    )
        requires
            old(self).wf(),
        ensures
            final(self).wf(),
            final(self).has_watch(session_id@),
            ({
                let e = final(self).entry_for(session_id@)->Some_0;
                &&& e.session_id@ == session_id@
                &&& e.path@ == session_path@
                &&& e.project_path@ == project_path@
                &&& e.last_position == observed_len
            }),
            forall|id: Seq<char>| id != session_id@ ==> final(self).entry_for(id) == old(
                self,
            ).entry_for(id),
            final(self).entries().len() == old(self).entries().len() + (if old(self).has_watch(
                session_id@,
            ) {
                0int
            } else {
                1int
            }),
    {
        let entry = WatchedSession {
            session_id: String::from_str(session_id),
            path: String::from_str(session_path),
            project_path: String::from_str(project_path),
            last_position: observed_len,
        };
        let found = self.find(session_id);
        match found {
            Some(k) => {
                let ghost pre = self.sessions@;
                self.sessions.remove(k);
                self.sessions.insert(k, entry);
                proof {
                    assert(self.sessions@ =~= pre.update(k as int, self.sessions@[k as int]));
                    self.lemma_index_unique(session_id@, k as int);
                    assert forall|id: Seq<char>| id != session_id@ implies self.entry_for(id)
                        == old(self).entry_for(id) by {
                        self.lemma_entry_preserved_update(*old(self), id, k as int);
                    }
                }
            },
            None => {
                let ghost pre = self.sessions@;
                self.sessions.push(entry);
                proof {
                    let n = pre.len() as int;
                    assert(self.sessions@[n].session_id@ == session_id@);
                    assert forall|i: int| 0 <= i < n implies (
                    #[trigger] self.entries()[i]).session_id@ != session_id@ by {
                        assert(self.entries()[i] == old(self).entries()[i]);
                        if old(self).entries()[i].session_id@ == session_id@ {
                            assert(old(self).has_watch(session_id@));
                        }
                    }
                    assert forall|i: int, j: int|
                        0 <= i < j < self.entries().len() implies (
                    #[trigger] self.entries()[i]).session_id@ != (
                    #[trigger] self.entries()[j]).session_id@ by {
                        if j < n {
                            assert(self.entries()[i] == old(self).entries()[i]);
                            assert(self.entries()[j] == old(self).entries()[j]);
                        }
                    }
                    self.lemma_index_unique(session_id@, n);
                    assert forall|id: Seq<char>| id != session_id@ implies self.entry_for(id)
                        == old(self).entry_for(id) by {
                        self.lemma_entry_preserved_push(*old(self), id);
                    }
                }
            },
        }
    }

    /// Looking any id up is unchanged by updating some position whose
    /// entry keeps its id, when the id looked up is not that one.
    proof fn lemma_entry_preserved_update(&self, pre: SessionWatcher, id: Seq<char>, k: int)
        requires
            pre.wf(),
            self.wf(),
            0 <= k < pre.entries().len(),
            self.entries().len() == pre.entries().len(),
            forall|j: int| 0 <= j < pre.entries().len() && j != k ==> self.entries()[j]
                == pre.entries()[j],
            id != self.entries()[k].session_id@,
            id != pre.entries()[k].session_id@,
        ensures
            self.entry_for(id) == pre.entry_for(id),
    {
        if pre.has_watch(id) {
            let j = pre.index_of(id);
            assert(j != k);
            assert(self.entries()[j].session_id@ == id);
            self.lemma_index_unique(id, j);
        } else if self.has_watch(id) {
            let j = self.index_of(id);
            assert(j != k);
            assert(pre.entries()[j].session_id@ == id);
        }
    }

    /// Looking any other id up is unchanged by appending an entry.
    proof fn lemma_entry_preserved_push(&self, pre: SessionWatcher, id: Seq<char>)
        requires
            pre.wf(),
            self.wf(),
            self.entries().len() == pre.entries().len() + 1,
            forall|j: int| 0 <= j < pre.entries().len() ==> self.entries()[j] == pre.entries()[j],
            id != self.entries()[pre.entries().len() as int].session_id@,
        ensures
            self.entry_for(id) == pre.entry_for(id),
    {
        if pre.has_watch(id) {
            let j = pre.index_of(id);
            assert(self.entries()[j].session_id@ == id);
            self.lemma_index_unique(id, j);
        } else if self.has_watch(id) {
            let j = self.index_of(id);
            assert(j < pre.entries().len());
            assert(pre.entries()[j].session_id@ == id);
        }
    }

    /// Looking any other id up is unchanged by removing a position.
    proof fn lemma_entry_preserved_remove(&self, pre: SessionWatcher, id: Seq<char>, k: int)
        requires
            pre.wf(),
            self.wf(),
            0 <= k < pre.entries().len(),
            self.entries() == pre.entries().remove(k),
            id != pre.entries()[k].session_id@,
        ensures
            self.entry_for(id) == pre.entry_for(id),
    {
        if pre.has_watch(id) {
            let j = pre.index_of(id);
            assert(j != k);
            if j < k {
                assert(self.entries()[j].session_id@ == id);
                self.lemma_index_unique(id, j);
                assert(self.entries()[j] == pre.entries()[j]);
            } else {
                assert(self.entries()[j - 1] == pre.entries()[j]);
                self.lemma_index_unique(id, j - 1);
            }
        } else if self.has_watch(id) {
            let j = self.index_of(id);
            if j < k {
                assert(pre.entries()[j].session_id@ == id);
            } else {
                assert(pre.entries()[j + 1].session_id@ == id);
            }
        }
    }

    /// Stop watching an id; unknown ids are ignored.
    pub fn unwatch_session(&mut self, session_id: &str)
        requires
            old(self).wf(),
        ensures
            final(self).wf(),
            !final(self).has_watch(session_id@),
            forall|id: Seq<char>| id != session_id@ ==> final(self).entry_for(id) == old(
                self,
            ).entry_for(id),
            final(self).entries().len() == old(self).entries().len() - (if old(self).has_watch(
                session_id@,
            ) {
                1int
            } else {
                0int
            }),
    {
        let found = self.find(session_id);
        match found {
            Some(k) => {
                self.sessions.remove(k);
                proof {
                    assert forall|i: int, j: int|
                        0 <= i < j < self.entries().len() implies (
                    #[trigger] self.entries()[i]).session_id@ != (
                    #[trigger] self.entries()[j]).session_id@ by {
                        let pi = if i < k { i } else { i + 1 };
                        let pj = if j < k { j } else { j + 1 };
                        assert(old(self).entries()[pi] == self.entries()[i]);
                        assert(old(self).entries()[pj] == self.entries()[j]);
                    }
                    if self.has_watch(session_id@) {
                        let j = self.index_of(session_id@);
                        let pj = if j < k { j } else { j + 1 };
                        assert(old(self).entries()[pj].session_id@ == session_id@);
                        old(self).lemma_index_unique(session_id@, pj);
                        assert(false);
                    }
                    assert forall|id: Seq<char>| id != session_id@ implies self.entry_for(id)
                        == old(self).entry_for(id) by {
                        self.lemma_entry_preserved_remove(*old(self), id, k as int);
                    }
                }
            },
            None => {},
        }
    }

    /// Snapshot what to read next: every watched file with its offset.
    pub fn poll_targets(&self) -> (r: Vec<PollTarget>)
        ensures
            r@.len() == self.entries().len(),
            forall|k: int|
                0 <= k < r@.len() ==> {
                    &&& (#[trigger] r@[k]).session_id@ == self.entries()[k].session_id@
                    &&& r@[k].path@ == self.entries()[k].path@
                    &&& r@[k].project_path@ == self.entries()[k].project_path@
                    &&& r@[k].last_position == self.entries()[k].last_position
                },
    {
        let n = self.sessions.len();
        let mut r: Vec<PollTarget> = Vec::new();
        let mut k: usize = 0;
        while k < n
            invariant
                n == self.entries().len(),
                k <= n,
                r@.len() == k,
                forall|j: int|
                    0 <= j < k ==> {
                        &&& (#[trigger] r@[j]).session_id@ == self.entries()[j].session_id@
                        &&& r@[j].path@ == self.entries()[j].path@
                        &&& r@[j].project_path@ == self.entries()[j].project_path@
                        &&& r@[j].last_position == self.entries()[j].last_position
                    },
            decreases n - k,
        {
            let e = &self.sessions[k];
            r.push(
                PollTarget {
                    session_id: e.session_id.clone(),
                    path: e.path.clone(),
                    project_path: e.project_path.clone(),
                    last_position: e.last_position,
                },
            );
            k = k + 1;
        }
        r
    }

    /// Consume what one read observed: advance the offset, reset it on
    /// truncation, drop the watch on deletion, and derive the events.
    ///
    /// At every poll boundary the recorded offset stays at or below the
    /// observed file size, whatever the caller read: the advance is
    /// clamped at the observed end.  When the caller hands exactly the
    /// bytes from the offset to that end — the intended reading — the
    /// clamp never bites and the offset lands at the end of the last
    /// complete line.
    pub fn apply_poll(&mut self, session_id: &str, outcome: PollOutcome) -> (events: Vec<
        SessionWatchEvent,
    >)
        requires
            old(self).wf(),
        ensures
            final(self).wf(),
            !old(self).has_watch(session_id@) ==> *final(self) == *old(self) && events@.len() == 0,
            forall|id: Seq<char>| id != session_id@ ==> final(self).entry_for(id) == old(
                self,
            ).entry_for(id),
            (outcome matches PollOutcome::Missing && old(self).has_watch(session_id@)) ==> {
                &&& !final(self).has_watch(session_id@)
                &&& events@.len() == 1
                &&& events@[0] matches SessionWatchEvent::SessionDeleted {
                    session_id: sid,
                    project_path: pp,
                } && sid@ == session_id@ && pp@ == old(self).entry_for(
                    session_id@,
                )->Some_0.project_path@
            },
            (outcome matches PollOutcome::ReadError { .. } && old(self).has_watch(session_id@))
                ==> {
                &&& *final(self) == *old(self)
                &&& events@.len() == 1
                &&& events@[0] matches SessionWatchEvent::Error { session_id: sid, .. }
                    && sid@ == session_id@
            },
            (outcome matches PollOutcome::Read { .. } && old(self).has_watch(session_id@)) ==> {
                let file_size = outcome->Read_file_size;
                let appended = outcome->Read_appended;
                let pre = old(self).entry_for(session_id@)->Some_0;
                let post = final(self).entry_for(session_id@)->Some_0;
                &&& final(self).has_watch(session_id@)
                &&& post.session_id@ == pre.session_id@
                &&& post.path@ == pre.path@
                &&& post.project_path@ == pre.project_path@
                &&& post.last_position <= file_size
                &&& (file_size < pre.last_position ==> post.last_position == file_size
                    && events@.len() == 0)
                &&& (file_size >= pre.last_position ==> {
                    &&& post.last_position as int == (if pre.last_position + consumed_len(
                        appended@,
                    ) <= file_size {
                        pre.last_position + consumed_len(appended@)
                    } else {
                        file_size as int
                    })
                    &&& post.last_position >= pre.last_position
                    &&& (appended@.len() == file_size - pre.last_position
                        ==> post.last_position == pre.last_position + consumed_len(appended@))
                    &&& events@.len() == parse_count(complete_lines(appended@))
                    &&& forall|k: int|
                        0 <= k < events@.len() ==> is_new_message_for(
                            #[trigger] events@[k],
                            session_id@,
                            pre.project_path@,
                            parsed_records(complete_lines(appended@)).index(k),
                        )
                })
                &&& final(self).entries().len() == old(self).entries().len()
            },
    {
        let mut events: Vec<SessionWatchEvent> = Vec::new();
        let found = self.find(session_id);
        let k = match found {
            Some(k) => k,
            None => {
                return events;
            },
        };
        match outcome {
            PollOutcome::Missing => {
                let removed = self.sessions.remove(k);
                events.push(
                    SessionWatchEvent::SessionDeleted {
                        session_id: String::from_str(session_id),
                        project_path: removed.project_path,
                    },
                );
                proof {
                    assert forall|i: int, j: int|
                        0 <= i < j < self.entries().len() implies (
                    #[trigger] self.entries()[i]).session_id@ != (
                    #[trigger] self.entries()[j]).session_id@ by {
                        let pi = if i < k { i } else { i + 1 };
                        let pj = if j < k { j } else { j + 1 };
                        assert(old(self).entries()[pi] == self.entries()[i]);
                        assert(old(self).entries()[pj] == self.entries()[j]);
                    }
                    if self.has_watch(session_id@) {
                        let j = self.index_of(session_id@);
                        let pj = if j < k { j } else { j + 1 };
                        assert(old(self).entries()[pj].session_id@ == session_id@);
                        old(self).lemma_index_unique(session_id@, pj);
                        assert(false);
                    }
                    assert forall|id: Seq<char>| id != session_id@ implies self.entry_for(id)
                        == old(self).entry_for(id) by {
                        self.lemma_entry_preserved_remove(*old(self), id, k as int);
                    }
                }
                events
            },
            PollOutcome::ReadError { message } => {
                events.push(
                    SessionWatchEvent::Error {
                        session_id: String::from_str(session_id),
                        error: message,
                    },
                );
                events
            },
            PollOutcome::Read { file_size, appended } => {
                let off = self.sessions[k].last_position;
                let project_path = self.sessions[k].project_path.clone();
                let new_position: u64 = if file_size < off {
                    // The file was rotated or truncated: skip to its end.
                    file_size
                } else {
                    let (mut records, consumed) = read_incremental(&appended);
                    proof {
                        lemma_consumed_le_len(appended@);
                    }
                    let ghost records0 = records@;
                    proof {
                        assert(records@ =~= records0.subrange(0, records0.len() as int));
                    }
                    while records.len() > 0
                        invariant
                            events@.len() + records@.len() == records0.len(),
                            records@ == records0.subrange(
                                events@.len() as int,
                                records0.len() as int,
                            ),
                            forall|j: int|
                                0 <= j < events@.len() ==> is_new_message_for(
                                    #[trigger] events@[j],
                                    session_id@,
                                    project_path@,
                                    records0.index(j),
                                ),
                        decreases records@.len(),
                    {
                        let ghost done_count = events@.len() as int;
                        let v = records.remove(0);
                        proof {
                            assert(v == records0[done_count]);
                            assert(records@ =~= records0.subrange(
                                done_count + 1,
                                records0.len() as int,
                            ));
                        }
                        events.push(
                            SessionWatchEvent::NewMessage {
                                session_id: String::from_str(session_id),
                                project_path: project_path.clone(),
                                message: v,
                            },
                        );
                    }
                    let advanced: u64 = if consumed as u64 <= u64::MAX - off {
                        off + consumed as u64
                    } else {
                        u64::MAX
                    };
                    if advanced < file_size {
                        advanced
                    } else {
                        file_size
                    }
                };
                let ghost pre_entries = self.sessions@;
                let old_entry = self.sessions.remove(k);
                let new_entry = WatchedSession {
                    session_id: old_entry.session_id,
                    path: old_entry.path,
                    project_path: old_entry.project_path,
                    last_position: new_position,
                };
                self.sessions.insert(k, new_entry);
                proof {
                    assert(self.sessions@ =~= pre_entries.update(
                        k as int,
                        self.sessions@[k as int],
                    ));
                    assert forall|i: int, j: int|
                        0 <= i < j < self.entries().len() implies (
                    #[trigger] self.entries()[i]).session_id@ != (
                    #[trigger] self.entries()[j]).session_id@ by {
                        assert(old(self).entries()[i].session_id@ == self.entries()[i].session_id@);
                        assert(old(self).entries()[j].session_id@ == self.entries()[j].session_id@);
                    }
                    self.lemma_index_unique(session_id@, k as int);
                    assert forall|id: Seq<char>| id != session_id@ implies self.entry_for(id)
                        == old(self).entry_for(id) by {
                        self.lemma_entry_preserved_update(*old(self), id, k as int);
                    }
                }
                events
            },
        }
    }
}

} // verus!

//! Chat sessions of the API server: the store, its listing and lookups, and
//! the messages a turn adds.
use vstd::prelude::*;
use crate::ids::new_uuid_v4;
use crate::text::{join3, owned, str_eq};

verus! {

/// One message of a session.
#[derive(Debug, Clone)]
pub struct ChatMessage {
    pub role: String,
    pub content: String,
}

/// A chat session.
#[derive(Debug, Clone)]
pub struct Session {
    pub id: String,
    pub messages: Vec<ChatMessage>,
    pub created_at_ms: u64,
}

/// What a message is: its role and its content.
pub open spec fn message_view(m: ChatMessage) -> (Seq<char>, Seq<char>) {
    (m.role@, m.content@)
}

/// The messages of a session as role and content pairs.
pub open spec fn messages_view(ms: Seq<ChatMessage>) -> Seq<(Seq<char>, Seq<char>)> {
    ms.map_values(|m: ChatMessage| message_view(m))
}

/// What a session is: its id, its messages and its creation time.
pub open spec fn session_view(s: Session) -> (Seq<char>, Seq<(Seq<char>, Seq<char>)>, u64) {
    (s.id@, messages_view(s.messages@), s.created_at_ms)
}

/// No two sessions share an id.
pub open spec fn ids_unique(ss: Seq<Session>) -> bool {
    forall|i: int, j: int| 0 <= i < ss.len() && 0 <= j < ss.len() && i != j ==> #[trigger] ss[i].id@ != #[trigger] ss[j].id@
}

/// Whether a session with `id` is in `ss`.
pub open spec fn has_id(ss: Seq<Session>, id: Seq<char>) -> bool {
    exists|i: int| 0 <= i < ss.len() && #[trigger] ss[i].id@ == id
}

/// The position of the session with `id`.
pub open spec fn position_of(ss: Seq<Session>, id: Seq<char>) -> int {
    choose|i: int| 0 <= i < ss.len() && #[trigger] ss[i].id@ == id
}

/// The session with `id`, as its view.
pub open spec fn lookup(ss: Seq<Session>, id: Seq<char>) -> Option<(Seq<char>, Seq<(Seq<char>, Seq<char>)>, u64)> {
    if has_id(ss, id) {
        Some(session_view(ss[position_of(ss, id)]))
    } else {
        None
    }
}

/// A session as its id, its messages and its creation time.
pub type SessionView = (Seq<char>, Seq<(Seq<char>, Seq<char>)>, u64);

/// The session after a user message: the one stored, or a new one created
/// at `now`, with the message added.
pub open spec fn user_step(v: Option<SessionView>, id: Seq<char>, text: Seq<char>, now: u64) -> SessionView {
    match v {
        Some(s) => (id, s.1.push(("user"@, text)), s.2),
        None => (id, seq![("user"@, text)], now),
    }
}

/// The session after the assistant's reply: the reply added to a stored
/// session; no session appears for an id that has none.
pub open spec fn assistant_step(v: Option<SessionView>, text: Seq<char>) -> Option<SessionView> {
    match v {
        Some(s) => Some((s.0, s.1.push(("assistant"@, text)), s.2)),
        None => None,
    }
}

/// A chat turn leaves the session with what it had, then the user's message,
/// then the assistant's reply.
pub proof fn lemma_turn_appends_both(v: Option<SessionView>, id: Seq<char>, question: Seq<char>, reply: Seq<char>, now: u64)
    ensures
        ({
            let before = match v {
                Some(s) => s.1,
                None => Seq::empty(),
            };
            &&& assistant_step(Some(user_step(v, id, question, now)), reply) matches Some(after)
            &&& after.0 == id
            &&& after.1 == before + seq![("user"@, question), ("assistant"@, reply)]
            &&& after.2 == match v {
                Some(s) => s.2,
                None => now,
            }
        }),
{
    let before = match v {
        Some(s) => s.1,
        None => Seq::<(Seq<char>, Seq<char>)>::empty(),
    };
    assert(before.push(("user"@, question)).push(("assistant"@, reply)) =~= before + seq![
        ("user"@, question),
        ("assistant"@, reply),
    ]);
    assert(seq![("user"@, question)] =~= Seq::<(Seq<char>, Seq<char>)>::empty().push(("user"@, question)));
}

/// The sessions of the server, each under its own id.
#[derive(Debug, Clone)]
pub struct SessionStore {
    pub sessions: Vec<Session>,
}

impl SessionStore {
    /// The store holds no two sessions with one id.
    pub open spec fn wf(&self) -> bool {
        ids_unique(self.sessions@)
    }

    /// The session stored under `id`.
    pub open spec fn get(&self, id: Seq<char>) -> Option<(Seq<char>, Seq<(Seq<char>, Seq<char>)>, u64)> {
        lookup(self.sessions@, id)
    }
}

/// The summary of a session in a listing.
#[derive(Debug, Clone, PartialEq, Eq)]
pub struct SessionSummary {
    pub session_id: String,
    pub created_at_ms: u64,
    pub message_count: usize,
}

/// The summary of a session, as a view.
pub open spec fn summary_of(s: Session) -> (Seq<char>, u64, nat) {
    (s.id@, s.created_at_ms, s.messages@.len())
}

/// A summary, as a view.
pub open spec fn summary_view(s: SessionSummary) -> (Seq<char>, u64, nat) {
    (s.session_id@, s.created_at_ms, s.message_count as nat)
}

/// `x` is the summary of `s`.
pub open spec fn summarizes(x: SessionSummary, s: Session) -> bool {
    &&& x.session_id@ == s.id@
    &&& x.created_at_ms == s.created_at_ms
    &&& x.message_count == s.messages@.len()
}

/// Newest first: creation times never increase along the list.
pub open spec fn newest_first(l: Seq<SessionSummary>) -> bool {
    forall|i: int, j: int| 0 <= i < j < l.len() ==> #[trigger] l[i].created_at_ms >= #[trigger] l[j].created_at_ms
}

/// What `get_session` answers: the id and the messages of the session.
pub struct SessionDetail {
    pub session_id: String,
    pub messages: Vec<ChatMessage>,
}

/// Errors of the session routes.
#[derive(Debug)]
pub enum AppError {
    NotFound(String),
}

/// The reply to a session creation.
pub struct CreatedSession {
    pub session_id: String,
    pub created_at_ms: u64,
}

/// A copy of a message.
fn copy_message(m: &ChatMessage) -> (r: ChatMessage)
    ensures
        message_view(r) == message_view(*m),
{
    ChatMessage { role: m.role.clone(), content: m.content.clone() }
}

/// A copy of a list of messages.
pub fn copy_messages(ms: &Vec<ChatMessage>) -> (r: Vec<ChatMessage>)
    ensures
        messages_view(r@) == messages_view(ms@),
{
    let mut r: Vec<ChatMessage> = Vec::new();
    let mut i: usize = 0;
    while i < ms.len()
        invariant
            i <= ms@.len(),
            r@.len() == i,
            forall|k: int| 0 <= k < i ==> message_view(#[trigger] r@[k]) == message_view(ms@[k]),
        decreases ms.len() - i,
    {
        let m = copy_message(&ms[i]);
        r.push(m);
        i = i + 1;
    }
    assert(messages_view(r@) =~= messages_view(ms@));
    r
}

/// Milliseconds since the epoch from whole seconds and the milliseconds of
/// the second that has begun.
pub fn epoch_millis(secs: u64, subsec_millis: u32) -> (ms: u64)
    requires
        secs * 1000 + subsec_millis <= u64::MAX,
    ensures
        ms == secs * 1000 + subsec_millis,
{
    secs * 1000 + subsec_millis as u64
}

impl SessionStore {
    pub fn new() -> (s: Self)
        ensures
            s.wf(),
            s.sessions@.len() == 0,
    {
        SessionStore { sessions: Vec::new() }
    }

    /// The position of the session with `id`, if there is one.
    fn find(&self, id: &str) -> (r: Option<usize>)
        requires
            self.wf(),
        ensures
            r matches Some(i) ==> i < self.sessions@.len() && self.sessions@[i as int].id@ == id@
                && position_of(self.sessions@, id@) == i,
            r is Some <==> has_id(self.sessions@, id@),
    {
        let mut i: usize = 0;
        while i < self.sessions.len()
            invariant
                i <= self.sessions@.len(),
                ids_unique(self.sessions@),
                forall|k: int| 0 <= k < i ==> #[trigger] self.sessions@[k].id@ != id@,
            decreases self.sessions.len() - i,
        {
            if str_eq(self.sessions[i].id.as_str(), id) {
                proof {
                    let p = position_of(self.sessions@, id@);
                    assert(has_id(self.sessions@, id@));
                    assert(self.sessions@[p].id@ == id@);
                    assert(p == i);
                }
                return Some(i);
            }
            i = i + 1;
        }
        None
    }

    /// Store `session` under its id, replacing a session stored there before.
    pub fn insert(&mut self, session: Session)
        requires
            old(self).wf(),
        ensures
            final(self).wf(),
            final(self).get(session.id@) == Some(session_view(session)),
            forall|other: Seq<char>| other != session.id@ ==> #[trigger] final(self).get(other) == old(self).get(other),
    {
        let ghost id = session.id@;
        let ghost sv = session_view(session);
        match self.find(session.id.as_str()) {
            Some(i) => {
                let ghost before = self.sessions@;
                self.sessions.set(i, session);
                proof {
                    let after = self.sessions@;
                    assert(after[i as int].id@ == id);
                    assert forall|other: Seq<char>| other != id implies #[trigger] lookup(after, other) == lookup(before, other) by {
                        if has_id(after, other) {
                            let p = position_of(after, other);
                            assert(p != i);
                            assert(before[p].id@ == other);
                            assert(has_id(before, other));
                            let q = position_of(before, other);
                            assert(q == p);
                        }
                        if has_id(before, other) {
                            let q = position_of(before, other);
                            assert(q != i);
                            assert(after[q].id@ == other);
                        }
                    }
                    assert(has_id(after, id));
                    let p = position_of(after, id);
                    assert(p == i);
                }
            },
            None => {
                let ghost before = self.sessions@;
                self.sessions.push(session);
                proof {
                    let after = self.sessions@;
                    let n = before.len() as int;
                    assert(after[n].id@ == id);
                    assert(has_id(after, id));
                    assert(position_of(after, id) == n);
                    assert forall|other: Seq<char>| other != id implies #[trigger] lookup(after, other) == lookup(before, other) by {
                        if has_id(after, other) {
                            let p = position_of(after, other);
                            assert(p != n);
                            assert(before[p].id@ == other);
                            assert(has_id(before, other));
                            let q = position_of(before, other);
                            assert(q == p);
                        }
                        if has_id(before, other) {
                            let q = position_of(before, other);
                            assert(after[q].id@ == other);
                        }
                    }
                }
            },
        }
    }
}



/// The position before the first entry older than `ts`.
fn insertion_point(out: &Vec<SessionSummary>, ts: u64) -> (pos: usize)
    ensures
        pos <= out@.len(),
        forall|k: int| 0 <= k < pos ==> #[trigger] out@[k].created_at_ms >= ts,
        pos < out@.len() ==> out@[pos as int].created_at_ms < ts,
{
    let mut pos: usize = 0;
    while pos < out.len()
        invariant
            pos <= out@.len(),
            forall|k: int| 0 <= k < pos ==> #[trigger] out@[k].created_at_ms >= ts,
        decreases out.len() - pos,
    {
        if out[pos].created_at_ms < ts {
            return pos;
        }
        pos = pos + 1;
    }
    pos
}

/// Putting `item` at `pos`, after every entry at least as new and before the
/// first older one, keeps a list newest first.
proof fn lemma_insert_newest_first(before: Seq<SessionSummary>, pos: int, item: SessionSummary)
    requires
        0 <= pos <= before.len(),
        newest_first(before),
        forall|k: int| 0 <= k < pos ==> #[trigger] before[k].created_at_ms >= item.created_at_ms,
        pos < before.len() ==> before[pos].created_at_ms < item.created_at_ms,
    ensures
        newest_first(before.insert(pos, item)),
{
    before.insert_ensures(pos, item);
    let after = before.insert(pos, item);
    assert forall|a: int, b: int| 0 <= a < b < after.len() implies #[trigger] after[a].created_at_ms
        >= #[trigger] after[b].created_at_ms by {
        if b < pos {
            assert(after[a] == before[a]);
            assert(after[b] == before[b]);
        } else if b == pos {
            assert(after[a] == before[a]);
        } else if a < pos {
            assert(after[a] == before[a]);
            assert(after[b] == before[b - 1]);
        } else if a == pos {
            assert(after[b] == before[b - 1]);
            if b - 1 > pos {
                assert(before[pos].created_at_ms >= before[b - 1].created_at_ms);
            }
        } else {
            assert(after[a] == before[a - 1]);
            assert(after[b] == before[b - 1]);
        }
    }
}

/// `src` and `dst` link the entries of `out` and the first `i` sessions both
/// ways: entry `k` summarizes session `src[k]`, and session `j` is summarized
/// by entry `dst[j]`.
pub open spec fn placed(out: Seq<SessionSummary>, ss: Seq<Session>, src: Seq<int>, dst: Seq<int>, i: int) -> bool {
    &&& forall|k: int|
        #![trigger src[k]]
        0 <= k < out.len() ==> 0 <= src[k] && src[k] < i && src[k] < ss.len() && summarizes(out[k], ss[src[k]])
    &&& forall|j: int|
        #![trigger dst[j]]
        0 <= j < i ==> 0 <= dst[j] && dst[j] < out.len() && summarizes(out[dst[j]], ss[j])
}

/// Positions at or after `pos` move one place on.
pub open spec fn shifted(dst: Seq<int>, pos: int) -> Seq<int> {
    dst.map_values(|d: int| if d >= pos { d + 1 } else { d })
}

/// Putting the summary of session `i` at `pos` keeps the two-way link.
proof fn lemma_insert_placed(
    before: Seq<SessionSummary>,
    pos: int,
    item: SessionSummary,
    ss: Seq<Session>,
    src: Seq<int>,
    dst: Seq<int>,
    i: int,
)
    requires
        0 <= pos <= before.len(),
        0 <= i < ss.len(),
        before.len() == i,
        src.len() == i,
        dst.len() == i,
        summarizes(item, ss[i]),
        placed(before, ss, src, dst, i),
    ensures
        placed(before.insert(pos, item), ss, src.insert(pos, i), shifted(dst, pos).push(pos), i + 1),
{
    before.insert_ensures(pos, item);
    src.insert_ensures(pos, i);
    let after = before.insert(pos, item);
    let src2 = src.insert(pos, i);
    let dst2 = shifted(dst, pos).push(pos);
    assert forall|k: int| 0 <= k < after.len() implies 0 <= #[trigger] src2[k] && src2[k] < i + 1 && src2[k] < ss.len()
        && summarizes(after[k], ss[src2[k]]) by {
        if k < pos {
            assert(after[k] == before[k]);
            assert(src2[k] == src[k]);
        } else if k == pos {
        } else {
            assert(after[k] == before[k - 1]);
            assert(src2[k] == src[k - 1]);
        }
    }
    assert forall|j: int| 0 <= j < i + 1 implies 0 <= #[trigger] dst2[j] && dst2[j] < after.len()
        && summarizes(after[dst2[j]], ss[j]) by {
        if j < i {
            let d = dst[j];
            if d >= pos {
                assert(dst2[j] == d + 1);
                assert(after[d + 1] == before[d]);
            } else {
                assert(dst2[j] == d);
                assert(after[d] == before[d]);
            }
        } else {
            assert(dst2[j] == pos);
        }
    }
}

/// Entry `k` of `out` is the summary of some session of `ss`.
pub open spec fn lists_some_session(out: Seq<SessionSummary>, ss: Seq<Session>, k: int) -> bool {
    exists|j: int| 0 <= j && j < ss.len() && summarizes(out[k], #[trigger] ss[j])
}

/// Session `j` of `ss` is summarized by some entry of `out`.
pub open spec fn listed(out: Seq<SessionSummary>, ss: Seq<Session>, j: int) -> bool {
    exists|k: int| 0 <= k && k < out.len() && summarizes(#[trigger] out[k], ss[j])
}

/// A two-way link over all sessions makes the list a listing of them all.
proof fn lemma_placed_complete(out: Seq<SessionSummary>, ss: Seq<Session>, src: Seq<int>, dst: Seq<int>)
    requires
        out.len() == ss.len(),
        placed(out, ss, src, dst, ss.len() as int),
    ensures
        forall|k: int| 0 <= k < out.len() ==> #[trigger] lists_some_session(out, ss, k),
        forall|j: int| 0 <= j < ss.len() ==> #[trigger] listed(out, ss, j),
{
    assert forall|k: int| 0 <= k < out.len() implies #[trigger] lists_some_session(out, ss, k) by {
        let j = src[k];
        assert(summarizes(out[k], ss[j]));
    }
    assert forall|j: int| 0 <= j < ss.len() implies #[trigger] listed(out, ss, j) by {
        let k = dst[j];
        assert(summarizes(out[k], ss[j]));
    }
}

impl SessionStore {
    /// Create an empty session under `id`, created at `created_at_ms`.
    pub fn create_session_with_id(&mut self, id: String, created_at_ms: u64) -> (r: CreatedSession)
        requires
            old(self).wf(),
        ensures
            final(self).wf(),
            r.session_id@ == id@,
            r.created_at_ms == created_at_ms,
            final(self).get(id@) == Some((id@, Seq::<(Seq<char>, Seq<char>)>::empty(), created_at_ms)),
            forall|other: Seq<char>| other != id@ ==> #[trigger] final(self).get(other) == old(self).get(other),
    {
        let session = Session { id: id.clone(), messages: Vec::new(), created_at_ms };
        assert(messages_view(session.messages@) =~= Seq::<(Seq<char>, Seq<char>)>::empty());
        self.insert(session);
        CreatedSession { session_id: id, created_at_ms }
    }

    /// Create an empty session under a fresh random id, created at
    /// `created_at_ms`.
    pub fn create_session(&mut self, created_at_ms: u64) -> (r: CreatedSession)
        requires
            old(self).wf(),
        ensures
            final(self).wf(),
            r.session_id@.len() == 36,
            r.created_at_ms == created_at_ms,
            final(self).get(r.session_id@) == Some(
                (r.session_id@, Seq::<(Seq<char>, Seq<char>)>::empty(), created_at_ms),
            ),
            forall|other: Seq<char>| other != r.session_id@ ==> #[trigger] final(self).get(other) == old(self).get(other),
    {
        let id = new_uuid_v4();
        self.create_session_with_id(id, created_at_ms)
    }

    /// The summaries of all sessions, newest first.
    pub fn list_sessions(&self) -> (r: Vec<SessionSummary>)
        ensures
            r@.len() == self.sessions@.len(),
            newest_first(r@),
            forall|k: int| 0 <= k < r@.len() ==> #[trigger] lists_some_session(r@, self.sessions@, k),
            forall|j: int| 0 <= j < self.sessions@.len() ==> #[trigger] listed(r@, self.sessions@, j),
    {
        let mut out: Vec<SessionSummary> = Vec::new();
        let ghost mut src: Seq<int> = Seq::empty();
        let ghost mut dst: Seq<int> = Seq::empty();
        let mut i: usize = 0;
        while i < self.sessions.len()
            invariant
                i <= self.sessions@.len(),
                out@.len() == i,
                src.len() == i,
                dst.len() == i,
                newest_first(out@),
                placed(out@, self.sessions@, src, dst, i as int),
            decreases self.sessions.len() - i,
        {
            let s = &self.sessions[i];
            let item = SessionSummary {
                session_id: s.id.clone(),
                created_at_ms: s.created_at_ms,
                message_count: s.messages.len(),
            };
            let ts = item.created_at_ms;
            let pos = insertion_point(&out, ts);
            let ghost before = out@;
            proof {
                lemma_insert_newest_first(before, pos as int, item);
                lemma_insert_placed(before, pos as int, item, self.sessions@, src, dst, i as int);
                src = src.insert(pos as int, i as int);
                dst = shifted(dst, pos as int).push(pos as int);
            }
            out.insert(pos, item);
            i = i + 1;
        }
        proof {
            lemma_placed_complete(out@, self.sessions@, src, dst);
        }
        assert(i == self.sessions@.len());
        assert(out@.len() == self.sessions@.len());
        assert(newest_first(out@));
        out
    }

    /// The session stored under `id`: its id and a copy of its messages.
    pub fn get_session(&self, id: &str) -> (r: Result<SessionDetail, AppError>)
        requires
            self.wf(),
        ensures
            match self.get(id@) {
                Some(v) => r matches Ok(d) && d.session_id@ == v.0 && messages_view(d.messages@) == v.1,
                None => r matches Err(AppError::NotFound(m)) && m@ == "session "@ + id@ + " not found"@,
            },
    {
        match self.find(id) {
            Some(i) => {
                let s = &self.sessions[i];
                Ok(SessionDetail { session_id: s.id.clone(), messages: copy_messages(&s.messages) })
            },
            None => Err(AppError::NotFound(join3("session ", id, " not found"))),
        }
    }

    /// Add the user's message to the session `session_id`, creating the
    /// session at `now_ms` when it is not there, and return a copy of the
    /// session's messages.
    pub fn record_user_message(&mut self, session_id: &str, text: String, now_ms: u64) -> (r: Vec<ChatMessage>)
        requires
            old(self).wf(),
        ensures
            final(self).wf(),
            final(self).get(session_id@) == Some(user_step(old(self).get(session_id@), session_id@, text@, now_ms)),
            messages_view(r@) == user_step(old(self).get(session_id@), session_id@, text@, now_ms).1,
            forall|other: Seq<char>| other != session_id@ ==> #[trigger] final(self).get(other) == old(self).get(other),
    {
        let ghost before = self.sessions@;
        let i = match self.find(session_id) {
            Some(i) => i,
            None => {
                self.create_session_with_id(owned(session_id), now_ms);
                let j = self.find(session_id);
                match j {
                    Some(j) => j,
                    None => {
                        assert(false);
                        0
                    },
                }
            },
        };
        let ghost mid = self.sessions@;
        proof {
            assert(lookup(mid, session_id@) == Some(session_view(mid[i as int])));
            assert forall|o: Seq<char>| o != session_id@ implies lookup(mid, o) == #[trigger] old(self).get(o) by {
                assert(self.get(o) == old(self).get(o));
            }
        }
        let mut session = self.sessions.remove(i);
        assert(session == mid[i as int]);
        let ghost old_msgs = messages_view(session.messages@);
        session.messages.push(ChatMessage { role: owned("user"), content: text });
        assert(messages_view(session.messages@) =~= old_msgs.push(("user"@, text@)));
        let snapshot = copy_messages(&session.messages);
        self.sessions.insert(i, session);
        proof {
            let after = self.sessions@;
            assert(after =~= mid.update(i as int, after[i as int]));
            assert(after[i as int].id@ == session_id@);
            assert(has_id(after, session_id@));
            assert(position_of(after, session_id@) == i);
            assert forall|other: Seq<char>| other != session_id@ implies #[trigger] lookup(after, other) == lookup(mid, other) by {
                if has_id(after, other) {
                    let p = position_of(after, other);
                    assert(p != i);
                    assert(mid[p].id@ == other);
                    assert(has_id(mid, other));
                    assert(position_of(mid, other) == p);
                }
                if has_id(mid, other) {
                    let q = position_of(mid, other);
                    assert(q != i);
                    assert(after[q].id@ == other);
                }
            }
        }
        snapshot
    }

    /// Add the assistant's reply to the session `session_id`, when it is there.
    pub fn record_assistant_message(&mut self, session_id: &str, text: String)
        requires
            old(self).wf(),
        ensures
            final(self).wf(),
            final(self).get(session_id@) == assistant_step(old(self).get(session_id@), text@),
            forall|other: Seq<char>| other != session_id@ ==> #[trigger] final(self).get(other) == old(self).get(other),
    {
        match self.find(session_id) {
            Some(i) => {
                let ghost mid = self.sessions@;
                let mut session = self.sessions.remove(i);
                let ghost old_msgs = messages_view(session.messages@);
                session.messages.push(ChatMessage { role: owned("assistant"), content: text });
                assert(messages_view(session.messages@) =~= old_msgs.push(("assistant"@, text@)));
                self.sessions.insert(i, session);
                proof {
                    let after = self.sessions@;
                    assert(after =~= mid.update(i as int, after[i as int]));
                    assert(after[i as int].id@ == session_id@);
                    assert(has_id(after, session_id@));
                    assert(position_of(after, session_id@) == i);
                    assert forall|other: Seq<char>| other != session_id@ implies #[trigger] lookup(after, other) == lookup(mid, other) by {
                        if has_id(after, other) {
                            let p = position_of(after, other);
                            assert(p != i);
                            assert(mid[p].id@ == other);
                            assert(has_id(mid, other));
                            assert(position_of(mid, other) == p);
                        }
                        if has_id(mid, other) {
                            let q = position_of(mid, other);
                            assert(q != i);
                            assert(after[q].id@ == other);
                        }
                    }
                }
            },
            None => {},
        }
    }
}

} // verus!

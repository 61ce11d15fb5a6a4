use vstd::prelude::*;

use crate::ChatMessage;

verus! {

/// Error returned by delivery when the destination has no live session.
#[derive(Debug)]
pub enum DeliverError {
    Undeliverable,
}

/// A live session: the authenticated username of one open connection and
/// the FIFO queue of messages waiting for that connection's write path.
pub struct ConnectedUser {
    pub username: String,
    pub outbound: Vec<ChatMessage>,
}

/// The registry of live sessions, keyed by username. At most one session
/// per username at any instant; a later login with the same username
/// replaces the earlier session.
pub struct SessionRegistry {
    pub sessions: Vec<ConnectedUser>,
}

impl SessionRegistry {
    /// At most one live session per username.
    pub open spec fn wf(self) -> bool {
        forall|i: int, j: int|
            0 <= i < j < self.sessions@.len() ==> (#[trigger] self.sessions@[i].username@)
                != (#[trigger] self.sessions@[j].username@)
    }

    /// Some live session exists for this username.
    pub open spec fn has_session(self, name: Seq<char>) -> bool {
        exists|i: int|
            0 <= i < self.sessions@.len() && (#[trigger] self.sessions@[i].username@) == name
    }

    /// The position of this username's session.
    pub open spec fn session_index(self, name: Seq<char>) -> int {
        choose|i: int|
            0 <= i < self.sessions@.len() && (#[trigger] self.sessions@[i].username@) == name
    }

    /// The messages queued for this username, oldest first.
    pub open spec fn queue_of(self, name: Seq<char>) -> Seq<ChatMessage> {
        self.sessions@[self.session_index(name)].outbound@
    }

    /// Sessions of every other username are untouched: present exactly as
    /// before, with the same queue.
    pub open spec fn others_unchanged(pre: Self, post: Self, name: Seq<char>) -> bool {
        &&& forall|n: Seq<char>|
            n != name ==> (#[trigger] post.has_session(n) <==> pre.has_session(n))
        &&& forall|n: Seq<char>|
            n != name && pre.has_session(n) ==> #[trigger] post.queue_of(n) == pre.queue_of(n)
    }

    /// How `insert` relates the registry before and after the call: the
    /// username now has a session with an empty queue (a fresh connection
    /// supersedes any earlier one) and no other session changes.
    pub open spec fn insert_post(pre: Self, post: Self, name: Seq<char>) -> bool {
        &&& post.has_session(name)
        &&& post.queue_of(name) == Seq::<ChatMessage>::empty()
        &&& Self::others_unchanged(pre, post, name)
    }

    /// How `remove` relates the registry before and after the call: the
    /// username has no session, and no other session changes.
    pub open spec fn remove_post(pre: Self, post: Self, name: Seq<char>) -> bool {
        &&& !post.has_session(name)
        &&& Self::others_unchanged(pre, post, name)
    }

    /// How `deliver` relates the registry before and after the call: with
    /// a live session the message is appended to that session's queue and
    /// the call succeeds; without one the registry is untouched and the
    /// call reports `Undeliverable`.
    pub open spec fn deliver_post(
        pre: Self,
        post: Self,
        name: Seq<char>,
        m: ChatMessage,
        r: Result<(), DeliverError>,
    ) -> bool {
        if pre.has_session(name) {
            &&& r is Ok
            &&& post.has_session(name)
            &&& post.queue_of(name) == pre.queue_of(name).push(m)
            &&& Self::others_unchanged(pre, post, name)
        } else {
            r == Result::<(), DeliverError>::Err(DeliverError::Undeliverable) && post == pre
        }
    }

    pub fn new() -> (r: SessionRegistry)
        ensures
            r.wf(),
            r.sessions@.len() == 0,
            forall|n: Seq<char>| !r.has_session(n),
    {
        SessionRegistry { sessions: Vec::new() }
    }

    /// Finds the position of this username's session, if any.
    fn find_index(&self, name: &String) -> (r: Option<usize>)
        requires
            self.wf(),
        ensures
            r matches Some(i) ==> i < self.sessions@.len() && self.sessions@[i as int].username@
                == name@ && self.session_index(name@) == i && self.has_session(name@),
            r is None ==> !self.has_session(name@),
    {
        let n = self.sessions.len();
        for i in 0..n
            invariant
                self.wf(),
                n == self.sessions@.len(),
                forall|k: int| 0 <= k < i ==> (#[trigger] self.sessions@[k].username@) != name@,
        {
            if self.sessions[i].username == *name {
                proof {
                    lemma_unique_session_index(*self, name@, i as int);
                }
                return Some(i);
            }
        }
        None
    }

    /// Registers a session for this username with a fresh, empty outbound
    /// queue. A session already held by the username is replaced: the new
    /// connection supersedes the old one.
    pub fn insert(&mut self, username: String)
        requires
            old(self).wf(),
        ensures
            final(self).wf(),
            Self::insert_post(*old(self), *final(self), username@),
    {
        let ghost pre = *self;
        let idx = self.find_index(&username);
        match idx {
            Some(i) => {
                self.sessions[i] = ConnectedUser { username, outbound: Vec::new() };
                proof {
                    assert(self.sessions@[i as int].username@ == pre.sessions@[i as int].username@);
                    lemma_update_same_name(pre, *self, i as int);
                    lemma_unique_session_index(*self, username@, i as int);
                }
            },
            None => {
                self.sessions.push(ConnectedUser { username, outbound: Vec::new() });
                proof {
                    lemma_push_fresh_name(pre, *self);
                }
            },
        }
    }

    /// Removes this username's session. Idempotent: removing a username
    /// with no session leaves the registry unchanged.
    pub fn remove(&mut self, username: &String)
        requires
            old(self).wf(),
        ensures
            final(self).wf(),
            Self::remove_post(*old(self), *final(self), username@),
    {
        let ghost pre = *self;
        let idx = self.find_index(username);
        match idx {
            Some(i) => {
                self.sessions.remove(i);
                proof {
                    lemma_remove_entry(pre, *self, i as int);
                }
            },
            None => {},
        }
    }

    /// Enqueues a message for this username's live session; fails with
    /// `Undeliverable`, leaving the registry unchanged, exactly when the
    /// username has no live session. Never blocks and never panics.
    pub fn deliver(&mut self, username: &String, message: ChatMessage) -> (r: Result<
        (),
        DeliverError,
    >)
        requires
            old(self).wf(),
        ensures
            final(self).wf(),
            Self::deliver_post(*old(self), *final(self), username@, message, r),
    {
        let ghost pre = *self;
        let idx = self.find_index(username);
        match idx {
            Some(i) => {
                let ghost m = message;
                self.sessions[i].outbound.push(message);
                proof {
                    assert(self.sessions@[i as int].outbound@ == pre.sessions@[i as
                        int].outbound@.push(m));
                    lemma_update_same_name(pre, *self, i as int);
                    lemma_unique_session_index(*self, username@, i as int);
                }
                Ok(())
            },
            None => Err(DeliverError::Undeliverable),
        }
    }

    /// Dequeues the oldest message waiting for this username, if any.
    /// Returns `None`, leaving the registry unchanged, when the username
    /// has no session or its queue is empty.
    pub fn pop_outbound(&mut self, username: &String) -> (r: Option<ChatMessage>)
        requires
            old(self).wf(),
        ensures
            final(self).wf(),
            !old(self).has_session(username@) || old(self).queue_of(username@).len() == 0 ==> r
                is None && *final(self) == *old(self),
            old(self).has_session(username@) && old(self).queue_of(username@).len() > 0 ==> (r
                matches Some(m) && m == old(self).queue_of(username@).first()),
            old(self).has_session(username@) && old(self).queue_of(username@).len() > 0
                ==> final(self).has_session(username@) && final(self).queue_of(username@) == old(
                self,
            ).queue_of(username@).drop_first(),
            old(self).has_session(username@) && old(self).queue_of(username@).len() > 0
                ==> Self::others_unchanged(*old(self), *final(self), username@),
    {
        let ghost pre = *self;
        let idx = self.find_index(username);
        match idx {
            Some(i) => {
                if self.sessions[i].outbound.len() == 0 {
                    return None;
                }
                let m = self.sessions[i].outbound.remove(0);
                proof {
                    assert(self.sessions@[i as int].outbound@ =~= pre.sessions@[i as
                        int].outbound@.drop_first());
                    lemma_update_same_name(pre, *self, i as int);
                    lemma_unique_session_index(*self, username@, i as int);
                }
                Some(m)
            },
            None => None,
        }
    }

    /// Whether this username currently has a live session.
    pub fn is_connected(&self, username: &String) -> (r: bool)
        requires
            self.wf(),
        ensures
            r == self.has_session(username@),
    {
        let idx = self.find_index(username);
        idx.is_some()
    }

    /// The number of live sessions.
    pub fn session_count(&self) -> (r: usize)
        ensures
            r == self.sessions@.len(),
    {
        self.sessions.len()
    }
}

/// In a well-formed registry, the session at a position whose username
/// matches is the session `session_index` picks.
pub proof fn lemma_unique_session_index(reg: SessionRegistry, name: Seq<char>, i: int)
    requires
        reg.wf(),
        0 <= i < reg.sessions@.len(),
        reg.sessions@[i].username@ == name,
    ensures
        reg.has_session(name),
        reg.session_index(name) == i,
        reg.queue_of(name) == reg.sessions@[i].outbound@,
{
    assert(reg.has_session(name));
    let j = reg.session_index(name);
    if i < j {
        assert(reg.sessions@[i].username@ != reg.sessions@[j].username@);
    } else if j < i {
        assert(reg.sessions@[j].username@ != reg.sessions@[i].username@);
    }
}

/// Replacing the entry at one position with an entry of the same username
/// keeps the registry well-formed and touches no other username.
proof fn lemma_update_same_name(pre: SessionRegistry, post: SessionRegistry, i: int)
    requires
        pre.wf(),
        0 <= i < pre.sessions@.len(),
        post.sessions@.len() == pre.sessions@.len(),
        post.sessions@[i].username@ == pre.sessions@[i].username@,
        forall|k: int|
            0 <= k < pre.sessions@.len() && k != i ==> post.sessions@[k] == pre.sessions@[k],
    ensures
        post.wf(),
        SessionRegistry::others_unchanged(pre, post, pre.sessions@[i].username@),
{
    let name = pre.sessions@[i].username@;
    assert forall|a: int, b: int| 0 <= a < b < post.sessions@.len() implies (
    #[trigger] post.sessions@[a].username@) != (#[trigger] post.sessions@[b].username@) by {
        assert(post.sessions@[a].username@ == pre.sessions@[a].username@);
        assert(post.sessions@[b].username@ == pre.sessions@[b].username@);
    }
    assert forall|n: Seq<char>| n != name implies ((#[trigger] post.has_session(n))
        <==> pre.has_session(n)) by {
        if pre.has_session(n) {
            let k = pre.session_index(n);
            assert(post.sessions@[k].username@ == n);
        }
        if post.has_session(n) {
            let k = post.session_index(n);
            assert(pre.sessions@[k].username@ == n);
        }
    }
    assert forall|n: Seq<char>| n != name && pre.has_session(n) implies (
    #[trigger] post.queue_of(n)) == pre.queue_of(n) by {
        let k = pre.session_index(n);
        lemma_unique_session_index(pre, n, k);
        lemma_unique_session_index(post, n, k);
    }
}

/// Appending an entry whose username has no session keeps the registry
/// well-formed, gives that username the new entry, and touches no other
/// username.
proof fn lemma_push_fresh_name(pre: SessionRegistry, post: SessionRegistry)
    requires
        pre.wf(),
        post.sessions@.len() == pre.sessions@.len() + 1,
        forall|k: int| 0 <= k < pre.sessions@.len() ==> post.sessions@[k] == pre.sessions@[k],
        !pre.has_session(post.sessions@.last().username@),
    ensures
        post.wf(),
        post.has_session(post.sessions@.last().username@),
        post.queue_of(post.sessions@.last().username@) == post.sessions@.last().outbound@,
        SessionRegistry::others_unchanged(pre, post, post.sessions@.last().username@),
{
    let name = post.sessions@.last().username@;
    let last = pre.sessions@.len() as int;
    assert forall|a: int, b: int| 0 <= a < b < post.sessions@.len() implies (
    #[trigger] post.sessions@[a].username@) != (#[trigger] post.sessions@[b].username@) by {
        if b < last {
            assert(post.sessions@[a].username@ == pre.sessions@[a].username@);
            assert(post.sessions@[b].username@ == pre.sessions@[b].username@);
        } else {
            assert(post.sessions@[a].username@ == pre.sessions@[a].username@);
            assert(!pre.has_session(name));
        }
    }
    lemma_unique_session_index(post, name, last);
    assert forall|n: Seq<char>| n != name implies ((#[trigger] post.has_session(n))
        <==> pre.has_session(n)) by {
        if pre.has_session(n) {
            let k = pre.session_index(n);
            assert(post.sessions@[k].username@ == n);
        }
        if post.has_session(n) {
            let k = post.session_index(n);
            assert(k != last);
            assert(pre.sessions@[k].username@ == n);
        }
    }
    assert forall|n: Seq<char>| n != name && pre.has_session(n) implies (
    #[trigger] post.queue_of(n)) == pre.queue_of(n) by {
        let k = pre.session_index(n);
        lemma_unique_session_index(pre, n, k);
        lemma_unique_session_index(post, n, k);
    }
}

/// Removing the entry at one position keeps the registry well-formed,
/// leaves its username with no session, and touches no other username.
proof fn lemma_remove_entry(pre: SessionRegistry, post: SessionRegistry, i: int)
    requires
        pre.wf(),
        0 <= i < pre.sessions@.len(),
        post.sessions@ == pre.sessions@.remove(i),
    ensures
        post.wf(),
        SessionRegistry::remove_post(pre, post, pre.sessions@[i].username@),
{
    let name = pre.sessions@[i].username@;
    assert forall|a: int, b: int| 0 <= a < b < post.sessions@.len() implies (
    #[trigger] post.sessions@[a].username@) != (#[trigger] post.sessions@[b].username@) by {
        let pa: int = if a < i {
            a
        } else {
            a + 1
        };
        let pb: int = if b < i {
            b
        } else {
            b + 1
        };
        assert(post.sessions@[a] == pre.sessions@[pa]);
        assert(post.sessions@[b] == pre.sessions@[pb]);
    }
    if post.has_session(name) {
        let k = post.session_index(name);
        let pk: int = if k < i {
            k
        } else {
            k + 1
        };
        assert(post.sessions@[k] == pre.sessions@[pk]);
        assert(pre.sessions@[pk].username@ != pre.sessions@[i].username@);
    }
    assert forall|n: Seq<char>| n != name implies ((#[trigger] post.has_session(n))
        <==> pre.has_session(n)) by {
        if pre.has_session(n) {
            let k = pre.session_index(n);
            assert(k != i);
            if k < i {
                assert(post.sessions@[k].username@ == n);
            } else {
                assert(post.sessions@[k - 1].username@ == n);
            }
        }
        if post.has_session(n) {
            let k = post.session_index(n);
            let pk: int = if k < i {
                k
            } else {
                k + 1
            };
            assert(post.sessions@[k] == pre.sessions@[pk]);
            assert(pre.sessions@[pk].username@ == n);
        }
    }
    assert forall|n: Seq<char>| n != name && pre.has_session(n) implies (
    #[trigger] post.queue_of(n)) == pre.queue_of(n) by {
        let k = pre.session_index(n);
        lemma_unique_session_index(pre, n, k);
        if k < i {
            assert(post.sessions@[k].username@ == n);
            lemma_unique_session_index(post, n, k);
            assert(post.sessions@[k] == pre.sessions@[k]);
        } else {
            assert(k > i);
            assert(post.sessions@[k - 1] == pre.sessions@[k]);
            lemma_unique_session_index(post, n, k - 1);
        }
    }
}

/// How many live sessions in this list carry this username.
pub open spec fn count_sessions(s: Seq<ConnectedUser>, name: Seq<char>) -> nat
    decreases s.len(),
{
    if s.len() == 0 {
        0
    } else {
        count_sessions(s.drop_last(), name) + if s.last().username@ == name {
            1nat
        } else {
            0nat
        }
    }
}

/// A list of sessions with pairwise-distinct usernames holds exactly one
/// session with a username that occurs in it, and none with one that does
/// not.
pub proof fn lemma_count_sessions(s: Seq<ConnectedUser>, name: Seq<char>)
    requires
        forall|i: int, j: int|
            0 <= i < j < s.len() ==> (#[trigger] s[i].username@) != (#[trigger] s[j].username@),
    ensures
        (exists|i: int| 0 <= i < s.len() && (#[trigger] s[i].username@) == name)
            ==> count_sessions(s, name) == 1,
        !(exists|i: int| 0 <= i < s.len() && (#[trigger] s[i].username@) == name)
            ==> count_sessions(s, name) == 0,
    decreases s.len(),
{
    if s.len() > 0 {
        let p = s.drop_last();
        assert(forall|i: int| 0 <= i < p.len() ==> p[i] == s[i]);
        lemma_count_sessions(p, name);
        if s.last().username@ == name {
            assert forall|i: int| 0 <= i < p.len() implies (#[trigger] p[i].username@) != name by {
                assert(s[i].username@ != s[s.len() - 1].username@);
            }
        } else {
            if exists|i: int| 0 <= i < s.len() && (#[trigger] s[i].username@) == name {
                let i = choose|i: int| 0 <= i < s.len() && (#[trigger] s[i].username@) == name;
                assert(i < p.len() && p[i].username@ == name);
            }
        }
    }
}

/// A well-formed registry resolves a connected username to exactly one
/// live session, and a username with no session to none.
pub proof fn lemma_unique_session(reg: SessionRegistry, name: Seq<char>)
    requires
        reg.wf(),
    ensures
        reg.has_session(name) ==> count_sessions(reg.sessions@, name) == 1,
        !reg.has_session(name) ==> count_sessions(reg.sessions@, name) == 0,
{
    lemma_count_sessions(reg.sessions@, name);
}

/// Two connections logging in as the same username are serialized by the
/// registry's exclusive lock in some order; this law covers either order:
/// afterwards exactly one session is resolvable as current for that
/// username — the later connection's, with a fresh empty queue. The
/// replacement policy is deterministic.
pub proof fn lemma_duplicate_login(
    pre: SessionRegistry,
    mid: SessionRegistry,
    post: SessionRegistry,
    name: Seq<char>,
)
    requires
        pre.wf(),
        mid.wf(),
        post.wf(),
        SessionRegistry::insert_post(pre, mid, name),
        SessionRegistry::insert_post(mid, post, name),
    ensures
        post.has_session(name),
        post.queue_of(name) == Seq::<ChatMessage>::empty(),
        count_sessions(post.sessions@, name) == 1,
{
    lemma_unique_session(post, name);
}

} // verus!

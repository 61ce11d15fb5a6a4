use vstd::prelude::*;

use crate::User;

verus! {

/// Error returned when registering a username that is already taken.
#[derive(Debug)]
pub enum RegisterError {
    AlreadyExists,
}

/// The directory of registered accounts. Usernames are unique and
/// case-sensitive; accounts are never mutated or deleted once registered.
pub struct UserDirectory {
    pub users: Vec<User>,
}

impl UserDirectory {
    /// Usernames are unique: no two accounts share a username.
    pub open spec fn wf(self) -> bool {
        forall|i: int, j: int|
            0 <= i < j < self.users@.len() ==> (#[trigger] self.users@[i].username@)
                != (#[trigger] self.users@[j].username@)
    }

    /// Some account with this username is registered.
    pub open spec fn contains_username(self, name: Seq<char>) -> bool {
        exists|i: int| 0 <= i < self.users@.len() && (#[trigger] self.users@[i].username@) == name
    }

    /// The position of the account with this username.
    pub open spec fn account_index(self, name: Seq<char>) -> int {
        choose|i: int| 0 <= i < self.users@.len() && (#[trigger] self.users@[i].username@) == name
    }

    /// The credential registered for this username.
    pub open spec fn credential_of(self, name: Seq<char>) -> Seq<char> {
        self.users@[self.account_index(name)].password@
    }

    /// How many accounts carry this username (exactly one once it is
    /// registered, in a well-formed directory).
    pub open spec fn count_of(self, name: Seq<char>) -> nat {
        count_matching(self.users@, name)
    }

    /// A username/credential pair passes verification exactly when the
    /// username is registered and the credential matches it.
    pub open spec fn credentials_match(self, name: Seq<char>, password: Seq<char>) -> bool {
        self.contains_username(name) && self.credential_of(name) == password
    }

    /// How `register` relates the directory before and after the call.
    pub open spec fn register_post(
        pre: UserDirectory,
        post: UserDirectory,
        name: Seq<char>,
        password: Seq<char>,
        r: Result<(), RegisterError>,
    ) -> bool {
        if pre.contains_username(name) {
            r == Result::<(), RegisterError>::Err(RegisterError::AlreadyExists) && post == pre
        } else {
            &&& r is Ok
            &&& post.users@.len() == pre.users@.len() + 1
            &&& post.users@.subrange(0, pre.users@.len() as int) == pre.users@
            &&& post.users@.last().username@ == name
            &&& post.users@.last().password@ == password
        }
    }

    pub fn new() -> (r: UserDirectory)
        ensures
            r.wf(),
            r.users@.len() == 0,
    {
        UserDirectory { users: Vec::new() }
    }

    /// Registers a new account. Fails with `AlreadyExists`, leaving the
    /// directory unchanged, exactly when the username is already taken;
    /// otherwise appends the account.
    pub fn register(&mut self, username: String, password: String) -> (r: Result<
        (),
        RegisterError,
    >)
        requires
            old(self).wf(),
        ensures
            final(self).wf(),
            UserDirectory::register_post(*old(self), *final(self), username@, password@, r),
            final(self).contains_username(username@),
            final(self).credential_of(username@) == if old(self).contains_username(username@) {
                old(self).credential_of(username@)
            } else {
                password@
            },
    {
        let n = self.users.len();
        for i in 0..n
            invariant
                self.wf(),
                *self == *old(self),
                n == self.users@.len(),
                forall|k: int| 0 <= k < i ==> (#[trigger] self.users@[k].username@) != username@,
        {
            if self.users[i].username == username {
                proof {
                    lemma_unique_index(*self, username@, i as int);
                }
                return Err(RegisterError::AlreadyExists);
            }
        }
        assert(!self.contains_username(username@));
        let ghost pre = *self;
        self.users.push(User { username, password });
        proof {
            assert forall|i: int, j: int| 0 <= i < j < self.users@.len() implies (
            #[trigger] self.users@[i].username@) != (#[trigger] self.users@[j].username@) by {
                if j < pre.users@.len() {
                    assert(self.users@[i] == pre.users@[i]);
                    assert(self.users@[j] == pre.users@[j]);
                } else {
                    assert(self.users@[i] == pre.users@[i]);
                    assert(!pre.contains_username(self.users@[j].username@));
                }
            }
            assert(self.users@.subrange(0, pre.users@.len() as int) =~= pre.users@);
            lemma_unique_index(*self, self.users@.last().username@, self.users@.len() - 1);
        }
        Ok(())
    }

    /// Verifies a username/credential pair: returns a copy of the account
    /// exactly when both fields match a registered account, and `None` on
    /// any mismatch, unknown usernames included.
    pub fn verify(&self, username: &String, password: &String) -> (r: Option<User>)
        requires
            self.wf(),
        ensures
            r is Some <==> self.credentials_match(username@, password@),
            r matches Some(u) ==> u.username@ == username@ && u.password@ == password@,
    {
        let n = self.users.len();
        for i in 0..n
            invariant
                self.wf(),
                n == self.users@.len(),
                forall|k: int| 0 <= k < i ==> !((#[trigger] self.users@[k].username@) == username@
                    && self.users@[k].password@ == password@),
        {
            if self.users[i].username == *username && self.users[i].password == *password {
                proof {
                    lemma_unique_index(*self, username@, i as int);
                }
                return Some(
                    User {
                        username: self.users[i].username.clone(),
                        password: self.users[i].password.clone(),
                    },
                );
            }
        }
        proof {
            if self.credentials_match(username@, password@) {
                let i = self.account_index(username@);
                assert(self.users@[i].username@ == username@ && self.users@[i].password@
                    == password@);
            }
        }
        None
    }

    /// The number of registered accounts.
    pub fn user_count(&self) -> (r: usize)
        ensures
            r == self.users@.len(),
    {
        self.users.len()
    }
}

/// How many accounts in this list carry this username.
pub open spec fn count_matching(s: Seq<User>, name: Seq<char>) -> nat
    decreases s.len(),
{
    if s.len() == 0 {
        0
    } else {
        count_matching(s.drop_last(), name) + if s.last().username@ == name {
            1nat
        } else {
            0nat
        }
    }
}

/// A list of accounts with pairwise-distinct usernames holds exactly one
/// account with a username that occurs in it, and none with one that does
/// not.
pub proof fn lemma_count_matching(s: Seq<User>, name: Seq<char>)
    requires
        forall|i: int, j: int|
            0 <= i < j < s.len() ==> (#[trigger] s[i].username@) != (#[trigger] s[j].username@),
    ensures
        (exists|i: int| 0 <= i < s.len() && (#[trigger] s[i].username@) == name)
            ==> count_matching(s, name) == 1,
        !(exists|i: int| 0 <= i < s.len() && (#[trigger] s[i].username@) == name)
            ==> count_matching(s, name) == 0,
    decreases s.len(),
{
    if s.len() > 0 {
        let p = s.drop_last();
        assert(forall|i: int| 0 <= i < p.len() ==> p[i] == s[i]);
        lemma_count_matching(p, name);
        if s.last().username@ == name {
            assert forall|i: int| 0 <= i < p.len() implies (#[trigger] p[i].username@) != name by {
                assert(s[i].username@ != s[s.len() - 1].username@);
            }
        } else {
            if exists|i: int| 0 <= i < s.len() && (#[trigger] s[i].username@) == name {
                let i = choose|i: int| 0 <= i < s.len() && (#[trigger] s[i].username@) == name;
                assert(i < p.len() && p[i].username@ == name);
            }
        }
    }
}

/// In a well-formed directory, a registered username has exactly one
/// account and an unregistered one has none.
pub proof fn lemma_unique_account(d: UserDirectory, name: Seq<char>)
    requires
        d.wf(),
    ensures
        d.contains_username(name) ==> d.count_of(name) == 1,
        !d.contains_username(name) ==> d.count_of(name) == 0,
{
    lemma_count_matching(d.users@, name);
}

/// Registrations of one username are exclusive. Concurrent registrations
/// are serialized by the directory's exclusive lock in some order; this
/// law covers every such order and any number of attempts. `dirs` is the
/// run of directory states, `passes[k]` and `results[k]` the credential
/// and outcome of the step from `dirs[k]` to `dirs[k + 1]`: exactly the
/// first registration succeeds, every later one fails with
/// `AlreadyExists`, and the directory afterwards holds exactly one
/// account with that username, carrying the winning call's credential.
pub proof fn lemma_registration_exclusive(
    dirs: Seq<UserDirectory>,
    name: Seq<char>,
    passes: Seq<Seq<char>>,
    results: Seq<Result<(), RegisterError>>,
)
    requires
        dirs.len() == passes.len() + 1,
        results.len() == passes.len(),
        passes.len() >= 1,
        forall|k: int| 0 <= k < dirs.len() ==> (#[trigger] dirs[k]).wf(),
        forall|k: int|
            0 <= k < passes.len() ==> UserDirectory::register_post(
                dirs[k],
                dirs[k + 1],
                name,
                #[trigger] passes[k],
                results[k],
            ),
        !dirs[0].contains_username(name),
    ensures
        results[0] is Ok,
        forall|k: int|
            1 <= k < results.len() ==> (#[trigger] results[k]) == Result::<
                (),
                RegisterError,
            >::Err(RegisterError::AlreadyExists),
        dirs.last().contains_username(name),
        dirs.last().count_of(name) == 1,
        dirs.last().credential_of(name) == passes[0],
    decreases passes.len(),
{
    if passes.len() == 1 {
        let last = dirs[0].users@.len() as int;
        assert(UserDirectory::register_post(dirs[0], dirs[1], name, passes[0], results[0]));
        assert(dirs[1].users@[last].username@ == name);
        lemma_unique_index(dirs[1], name, last);
        lemma_unique_account(dirs[1], name);
    } else {
        let n = passes.len() as int;
        let front = dirs.drop_last();
        assert(forall|k: int| 0 <= k < front.len() ==> front[k] == dirs[k]);
        lemma_registration_exclusive(front, name, passes.drop_last(), results.drop_last());
        assert(UserDirectory::register_post(dirs[n - 1], dirs[n], name, passes[n - 1], results[n
            - 1]));
        assert(dirs[n - 1].contains_username(name));
        assert(dirs[n] == dirs[n - 1]);
        assert forall|k: int| 1 <= k < results.len() implies (#[trigger] results[k]) == Result::<
            (),
            RegisterError,
        >::Err(RegisterError::AlreadyExists) by {
            if k < n - 1 {
                assert(results.drop_last()[k] == results[k]);
            }
        }
    }
}

/// In a well-formed directory, the account at a position whose username
/// matches is the account `account_index` picks.
pub proof fn lemma_unique_index(d: UserDirectory, name: Seq<char>, i: int)
    requires
        d.wf(),
        0 <= i < d.users@.len(),
        d.users@[i].username@ == name,
    ensures
        d.contains_username(name),
        d.account_index(name) == i,
        d.credential_of(name) == d.users@[i].password@,
{
    assert(d.contains_username(name));
    let j = d.account_index(name);
    if i < j {
        assert(d.users@[i].username@ != d.users@[j].username@);
    } else if j < i {
        assert(d.users@[j].username@ != d.users@[i].username@);
    }
}

} // verus!

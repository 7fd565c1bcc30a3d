//! Operator accounts: login names with bcrypt-hashed passwords, and the
//! credential check behind the login endpoint.
//!
//! Hashing and checking are bcrypt's; the store around them — unique login
//! names, overwrite on re-insertion, the lookup the login endpoint does — is
//! verified against bcrypt's contract.

use crate::keyed::{
    distinct_keys, key_index, lemma_key_index, lemma_map_of_contains, lemma_map_of_index,
    lemma_map_of_push, lemma_map_of_update, map_of, Keyed,
};
use crate::models::{User, UserV};
use vstd::pervasive::VecAdditionalExecFns;
use vstd::prelude::*;

verus! {

/// Whether bcrypt accepts `password` against the stored `hash`; a hash that
/// bcrypt cannot even parse counts as a mismatch. The answer depends on the
/// two strings alone.
pub uninterp spec fn bcrypt_accepts(password: Seq<char>, hash: Seq<char>) -> bool;

/// Relies on bcrypt::verify: it re-hashes `password` with the cost and salt
/// carried inside `hash` and compares, so its answer is a function of the two
/// arguments alone; its parse error on a malformed `hash` is taken as a
/// mismatch, as the login flow treats it.
#[verifier::external_body]
fn bcrypt_verify(password: &str, hash: &str) -> (r: bool)
    ensures
        r == bcrypt_accepts(password@, hash@),
{
    bcrypt::verify(password, hash).unwrap_or(false)
}

/// Relies on bcrypt::hash: it hashes `password` under a fresh random salt,
/// bcrypt::verify accepts the password against every hash it produces, and
/// the hash is always the 60-character `$2b$` form — never the password
/// itself, whose plaintext is not stored. `None` when the salt cannot be
/// drawn. Nothing else is assumed of the hash, which differs from call to
/// call.
#[verifier::external_body]
fn bcrypt_hash(password: &str) -> (r: Option<String>)
    ensures
        r matches Some(h) ==> bcrypt_accepts(password@, h@) && h@.len() == 60 && h@.subrange(
            0,
            4,
        ) == "$2b$"@,
{
    bcrypt::hash(password, bcrypt::DEFAULT_COST).ok()
}

/// Whether two string slices hold the same characters.
fn str_equal(a: &str, b: &str) -> (r: bool)
    ensures
        r == (a@ == b@),
{
    let sa: String = a.to_owned();
    let sb: String = b.to_owned();
    sa == sb
}

/// The store of operator accounts.
pub struct UserStore {
    users: Vec<User>,
}

impl View for UserStore {
    type V = Map<Seq<char>, UserV>;

    /// The store read as a map from login name to account.
    open spec fn view(&self) -> Map<Seq<char>, UserV> {
        map_of(self.snapshot())
    }
}

impl UserStore {
    /// The accounts in insertion order.
    pub closed spec fn snapshot(&self) -> Seq<UserV> {
        self.users@.map_values(|u: User| u@)
    }

    /// Login names are unique within the store.
    pub open spec fn wf(&self) -> bool {
        distinct_keys(self.snapshot())
    }

    /// An empty store.
    pub fn new() -> (s: Self)
        ensures
            s.wf(),
            s@ == Map::<Seq<char>, UserV>::empty(),
    {
        let s = UserStore { users: Vec::new() };
        proof {
            assert(s.snapshot() =~= Seq::<UserV>::empty());
        }
        s
    }

    /// The position of the account for `username`, when there is one.
    fn find_index(&self, username: &str) -> (r: Option<usize>)
        ensures
            match r {
                Some(i) => i < self.snapshot().len() && self.snapshot()[i as int].username
                    == username@,
                None => forall|j: int|
                    0 <= j < self.snapshot().len() ==> #[trigger] self.snapshot()[j].username
                        != username@,
            },
    {
        let mut i: usize = 0;
        while i < self.users.len()
            invariant
                i <= self.users.len(),
                self.snapshot().len() == self.users.len(),
                forall|j: int| 0 <= j < i ==> #[trigger] self.snapshot()[j].username != username@,
            decreases self.users.len() - i,
        {
            if str_equal(self.users[i].username.as_str(), username) {
                return Some(i);
            }
            i = i + 1;
        }
        None
    }

    /// Hash `password` and store the account under `username`, replacing
    /// whatever account that name had. What is stored is a 60-character
    /// `$2b$` bcrypt hash that passes the check for `password`, never the
    /// password itself. Reports `false`, leaving the store untouched, when
    /// no hash could be drawn.
    pub fn add_user(&mut self, username: &str, password: &str) -> (r: bool)
        requires
            old(self).wf(),
        ensures
            final(self).wf(),
            !r ==> final(self)@ == old(self)@,
            r ==> exists|h: Seq<char>|
                #[trigger] bcrypt_accepts(password@, h) && h.len() == 60 && h.subrange(0, 4)
                    == "$2b$"@ && final(self)@ == old(self)@.insert(
                    username@,
                    UserV { username: username@, password_hash: h },
                ),
    {
        let hashed = match bcrypt_hash(password) {
            Some(h) => h,
            None => {
                return false;
            },
        };
        let user = User { username: username.to_owned(), password_hash: hashed };
        let ghost uv = user@;
        let ghost pre = self.snapshot();
        match self.find_index(username) {
            Some(i) => {
                proof {
                    assert(pre[i as int].key() == username@);
                    lemma_key_index(pre, i as int);
                    lemma_map_of_update(pre, i as int, uv);
                }
                self.users.set(i, user);
                proof {
                    assert(self.snapshot() =~= pre.update(i as int, uv));
                }
            },
            None => {
                proof {
                    assert(forall|j: int|
                        0 <= j < pre.len() ==> #[trigger] pre[j].key() != username@);
                    lemma_map_of_push(pre, uv);
                }
                self.users.push(user);
                proof {
                    assert(self.snapshot() =~= pre.push(uv));
                }
            },
        }
        true
    }

    /// A pure read of the account for `username`.
    pub fn lookup(&self, username: &str) -> (r: Option<&User>)
        requires
            self.wf(),
        ensures
            match r {
                Some(u) => self@.contains_key(username@) && u@ == self@[username@],
                None => !self@.contains_key(username@),
            },
    {
        proof {
            lemma_map_of_contains(self.snapshot(), username@);
        }
        match self.find_index(username) {
            Some(i) => {
                proof {
                    assert(self.snapshot()[i as int].key() == username@);
                    lemma_map_of_index(self.snapshot(), i as int);
                }
                Some(&self.users[i])
            },
            None => None,
        }
    }

    /// The check behind the login endpoint: whether `username` has an account
    /// and bcrypt accepts `password` against its stored hash. Token issuance
    /// on success stays with the caller.
    pub fn check_credentials(&self, username: &str, password: &str) -> (r: bool)
        requires
            self.wf(),
        ensures
            r == (self@.contains_key(username@) && bcrypt_accepts(
                password@,
                self@[username@].password_hash,
            )),
    {
        match self.lookup(username) {
            Some(user) => bcrypt_verify(password, user.password_hash.as_str()),
            None => false,
        }
    }
}

/// Adding an account and presenting its password again is accepted: after
/// `add_user(u, p)` succeeds, the stored hash for `u` passes the bcrypt check
/// for `p`. Stated over the store contents `add_user` promises.
pub proof fn lemma_added_user_logs_in(m: Map<Seq<char>, UserV>, username: Seq<char>, password: Seq<char>, h: Seq<char>)
    requires
        bcrypt_accepts(password, h),
    ensures
        ({
            let m2 = m.insert(username, UserV { username, password_hash: h });
            &&& m2.contains_key(username)
            &&& bcrypt_accepts(password, m2[username].password_hash)
        }),
{
}

} // verus!

//! The vault session: login, logout, and plaintext-facing operations.
//!
//! The session owns the in-memory store of entries, each secret at rest in
//! its encrypted envelope, and — while unlocked — a plaintext cache of the
//! decrypted secrets together with the retained master password. The cache is
//! derived data: the encrypted form is always the source of truth.

use vstd::prelude::*;
use vstd::string::StringSliceAdditionalSpecFns;
use vstd::utf8::encode_utf8;
use vstd::utf8::valid_utf8;

use crate::crypto::MAX_PLAINTEXT_BYTES;
use crate::envelope::{decrypt, encrypt, opens_to};
use crate::errors::VaultError;

verus! {

/// One stored credential row: a stable id, the site and username in plain
/// text, and the secret in its encoded envelope form.
pub struct PasswordEntry {
    pub id: i32,
    pub site: String,
    pub username: String,
    /// The base64 text of `salt ‖ nonce ‖ ciphertext‖tag` sealing the secret.
    pub password: String,
}

/// The session state machine: `LoggedOut` until [`VaultSession::login`]
/// validates the master password against every stored envelope, then
/// `Unlocked` until [`VaultSession::logout`] clears the plaintext cache and
/// the retained password.
pub struct VaultSession {
    logged_in: bool,
    master_password: String,
    entries: Vec<PasswordEntry>,
    revealed: Vec<String>,
    next_id: i32,
}

impl VaultSession {
    /// Whether the session is unlocked.
    pub closed spec fn is_unlocked(self) -> bool {
        self.logged_in
    }

    /// The stored entries, secrets in envelope form.
    pub closed spec fn spec_entries(self) -> Seq<PasswordEntry> {
        self.entries@
    }

    /// The plaintext cache, parallel to the entries while unlocked.
    pub closed spec fn spec_revealed(self) -> Seq<String> {
        self.revealed@
    }

    /// The retained master password.
    pub closed spec fn spec_master(self) -> Seq<char> {
        self.master_password@
    }

    /// The id the next inserted entry receives; ids are never reused within a
    /// session.
    pub closed spec fn spec_next_id(self) -> int {
        self.next_id as int
    }

    /// Structural well-formedness: the cache is parallel to the entries while
    /// unlocked and empty while logged out, ids are pairwise distinct, and
    /// every id is below the next one to be assigned.
    pub open spec fn wf(self) -> bool {
        &&& (self.is_unlocked() ==> self.spec_revealed().len() == self.spec_entries().len())
        &&& (!self.is_unlocked() ==> self.spec_revealed().len() == 0)
        &&& 1 <= self.spec_next_id()
        &&& forall|i: int|
            0 <= i < self.spec_entries().len() ==> (#[trigger] self.spec_entries()[i]).id
                < self.spec_next_id()
        &&& forall|i: int, j: int|
            0 <= i < j < self.spec_entries().len() ==> self.spec_entries()[i].id
                != self.spec_entries()[j].id
    }

    /// Cryptographic correspondence of the cache: while unlocked, every
    /// stored envelope is a genuine sealing, under the retained master
    /// password, of the plaintext cached at the same position.
    pub open spec fn cache_ok(self) -> bool {
        self.is_unlocked() ==> forall|i: int|
            0 <= i < self.spec_entries().len() ==> opens_to(
                encode_utf8(self.spec_master()),
                (#[trigger] self.spec_entries()[i]).password@,
                encode_utf8(self.spec_revealed()[i]@),
            )
    }

    /// A fresh, logged-out session over an empty store.
    pub fn new() -> (s: Self)
        ensures
            !s.is_unlocked(),
            s.wf(),
            s.cache_ok(),
            s.spec_entries().len() == 0,
            s.spec_next_id() == 1,
    {
        VaultSession {
            logged_in: false,
            master_password: String::new(),
            entries: Vec::new(),
            revealed: Vec::new(),
            next_id: 1,
        }
    }

    /// Replaces the store contents with persisted rows, while logged out; the
    /// next id to assign is placed above every loaded id.
    pub fn load_entries(&mut self, stored: Vec<PasswordEntry>)
        requires
            !old(self).is_unlocked(),
            old(self).wf(),
            forall|i: int, j: int|
                0 <= i < j < stored@.len() ==> stored@[i].id != stored@[j].id,
            forall|i: int| 0 <= i < stored@.len() ==> (#[trigger] stored@[i]).id < 0x7fff_ffff,
        ensures
            final(self).spec_entries() == stored@,
            !final(self).is_unlocked(),
            final(self).wf(),
            final(self).cache_ok(),
    {
        let n = stored.len();
        let mut next: i32 = 1;
        let mut i: usize = 0;
        while i < n
            invariant
                n == stored@.len(),
                i <= n,
                1 <= next,
                forall|i0: int, j0: int|
                    0 <= i0 < j0 < stored@.len() ==> stored@[i0].id != stored@[j0].id,
                forall|j: int| 0 <= j < stored@.len() ==> (#[trigger] stored@[j]).id < 0x7fff_ffff,
                forall|j: int| 0 <= j < i ==> (#[trigger] stored@[j]).id < next,
            decreases n - i,
        {
            if stored[i].id >= next {
                next = stored[i].id + 1;
            }
            i += 1;
        }
        self.entries = stored;
        self.next_id = next;
    }

    /// Attempts the `LoggedOut → Unlocked` transition: opens every stored
    /// envelope under `password`. All must succeed — the first failure is
    /// returned and the session stays logged out. An empty store accepts any
    /// password: that is the first-run path that creates a vault under it. On
    /// success the plaintexts are cached and the password is retained for the
    /// session.
    pub fn login(&mut self, password: &str) -> (r: Result<(), VaultError>)
        requires
            !old(self).is_unlocked(),
            old(self).wf(),
        ensures
            final(self).spec_entries() == old(self).spec_entries(),
            final(self).spec_next_id() == old(self).spec_next_id(),
            final(self).wf(),
            final(self).cache_ok(),
            r is Ok ==> final(self).is_unlocked() && final(self).spec_master() == password@,
            r is Err ==> !final(self).is_unlocked() && *final(self) == *old(self),
            r matches Err(e) ==> (e == VaultError::MalformedEnvelope || e
                == VaultError::AuthenticationFailure || e == VaultError::EncodingFailure),
            old(self).spec_entries().len() == 0 ==> r is Ok,
            (forall|i: int|
                0 <= i < old(self).spec_entries().len() ==> exists|p: Seq<u8>|
                    p.len() <= MAX_PLAINTEXT_BYTES && valid_utf8(p) && opens_to(
                        password.spec_bytes(),
                        (#[trigger] old(self).spec_entries()[i]).password@,
                        p,
                    )) ==> r is Ok,
    {
        let n = self.entries.len();
        let mut revealed: Vec<String> = Vec::new();
        let mut i: usize = 0;
        while i < n
            invariant
                *self == *old(self),
                !old(self).is_unlocked(),
                old(self).wf(),
                n == self.spec_entries().len(),
                i <= n,
                revealed@.len() == i,
                forall|j: int|
                    0 <= j < i ==> opens_to(
                        password.spec_bytes(),
                        (#[trigger] self.spec_entries()[j]).password@,
                        encode_utf8(revealed@[j]@),
                    ),
            decreases n - i,
        {
            let res = decrypt(password, self.entries[i].password.as_str());
            if res.is_err() {
                let e = res.unwrap_err();
                proof {
                    let ghost env = self.spec_entries()[i as int].password@;
                    if exists|p: Seq<u8>|
                        p.len() <= MAX_PLAINTEXT_BYTES && valid_utf8(p) && opens_to(
                            password.spec_bytes(),
                            env,
                            p,
                        ) {
                        let p = choose|p: Seq<u8>|
                            p.len() <= MAX_PLAINTEXT_BYTES && valid_utf8(p) && opens_to(
                                password.spec_bytes(),
                                env,
                                p,
                            );
                        assert(false);
                    }
                }
                return Err(e);
            }
            let plain = res.unwrap();
            revealed.push(plain);
            i += 1;
        }
        self.revealed = revealed;
        self.master_password = password.to_owned();
        self.logged_in = true;
        Ok(())
    }

    /// The `Unlocked → LoggedOut` transition: clears the plaintext cache and
    /// the retained master password; the encrypted entries remain.
    pub fn logout(&mut self)
        requires
            old(self).wf(),
        ensures
            !final(self).is_unlocked(),
            final(self).spec_entries() == old(self).spec_entries(),
            final(self).spec_next_id() == old(self).spec_next_id(),
            final(self).spec_revealed().len() == 0,
            final(self).spec_master() == Seq::<char>::empty(),
            final(self).wf(),
            final(self).cache_ok(),
    {
        self.logged_in = false;
        self.revealed = Vec::new();
        self.master_password = String::new();
        proof {
            assert(self.spec_entries() == old(self).spec_entries());
            assert(self.wf());
        }
    }

    /// Seals `plaintext` under the retained master password and appends the
    /// entry, returning its fresh id.
    pub fn add_entry(&mut self, site: String, username: String, plaintext: &str) -> (r: i32)
        requires
            old(self).is_unlocked(),
            old(self).wf(),
            plaintext.spec_bytes().len() <= MAX_PLAINTEXT_BYTES,
            old(self).spec_next_id() < 0x7fff_ffff,
        ensures
            r == old(self).spec_next_id(),
            final(self).is_unlocked(),
            final(self).wf(),
            final(self).spec_master() == old(self).spec_master(),
            final(self).spec_next_id() == old(self).spec_next_id() + 1,
            final(self).spec_entries().drop_last() == old(self).spec_entries(),
            final(self).spec_entries().len() == old(self).spec_entries().len() + 1,
            final(self).spec_entries().last().id == r,
            final(self).spec_entries().last().site@ == site@,
            final(self).spec_entries().last().username@ == username@,
            opens_to(
                encode_utf8(old(self).spec_master()),
                final(self).spec_entries().last().password@,
                plaintext.spec_bytes(),
            ),
            final(self).spec_revealed().drop_last() == old(self).spec_revealed(),
            final(self).spec_revealed().last()@ == plaintext@,
            old(self).cache_ok() ==> final(self).cache_ok(),
    {
        let envelope = encrypt(self.master_password.as_str(), plaintext).unwrap();
        let id = self.next_id;
        self.next_id = self.next_id + 1;
        self.entries.push(PasswordEntry { id, site, username, password: envelope });
        self.revealed.push(plaintext.to_owned());
        proof {
            assert(self.entries@.drop_last() =~= old(self).entries@);
            assert(self.revealed@.drop_last() =~= old(self).revealed@);
        }
        id
    }

    /// Removes the entry with the given id from the store and evicts its
    /// cached plaintext; `NotFound` when no entry has that id, leaving the
    /// session as it was.
    pub fn delete_entry(&mut self, id: i32) -> (r: Result<(), VaultError>)
        requires
            old(self).is_unlocked(),
            old(self).wf(),
        ensures
            final(self).is_unlocked(),
            final(self).wf(),
            final(self).spec_master() == old(self).spec_master(),
            final(self).spec_next_id() == old(self).spec_next_id(),
            r is Ok <==> exists|i: int|
                0 <= i < old(self).spec_entries().len() && (#[trigger] old(self).spec_entries()[i]).id == id,
            r matches Err(e) ==> e == VaultError::NotFound && *final(self) == *old(self),
            r is Ok ==> exists|i: int|
                0 <= i < old(self).spec_entries().len() && (#[trigger] old(self).spec_entries()[i]).id == id && final(self).spec_entries() == old(self).spec_entries().remove(i) && final(self).spec_revealed() == old(self).spec_revealed().remove(i),
            r is Ok ==> forall|j: int|
                0 <= j < final(self).spec_entries().len() ==> (#[trigger] final(self).spec_entries()[j]).id != id,
            old(self).cache_ok() ==> final(self).cache_ok(),
    {
        let n = self.entries.len();
        let mut i: usize = 0;
        while i < n
            invariant
                n == self.spec_entries().len(),
                i <= n,
                *self == *old(self),
                old(self).wf(),
                old(self).is_unlocked(),
                forall|j: int| 0 <= j < i ==> (#[trigger] self.spec_entries()[j]).id != id,
            decreases n - i,
        {
            if self.entries[i].id == id {
                let ghost pre = self.entries@;
                let ghost pre_rev = self.revealed@;
                self.entries.remove(i);
                self.revealed.remove(i);
                proof {
                    let ghost post = self.entries@;
                    assert forall|j: int| 0 <= j < post.len() implies post[j] == (if j < i as int {
                        pre[j]
                    } else {
                        pre[j + 1]
                    }) by {}
                    assert forall|j: int| 0 <= j < self.revealed@.len() implies self.revealed@[j]
                        == (if j < i as int {
                        pre_rev[j]
                    } else {
                        pre_rev[j + 1]
                    }) by {}
                    assert forall|j: int| 0 <= j < post.len() implies (#[trigger] post[j]).id
                        != id by {
                        if j < i as int {
                            assert(post[j] == pre[j]);
                        } else {
                            assert(post[j] == pre[j + 1]);
                        }
                    }
                }
                return Ok(());
            }
            i += 1;
        }
        Err(VaultError::NotFound)
    }

    /// The cached plaintext of the entry with the given id, without touching
    /// the store; `None` when no entry has that id.
    pub fn reveal_entry(&self, id: i32) -> (r: Option<&String>)
        requires
            self.is_unlocked(),
            self.wf(),
        ensures
            r is Some <==> exists|i: int|
                0 <= i < self.spec_entries().len() && (#[trigger] self.spec_entries()[i]).id
                    == id,
            r matches Some(p) ==> exists|i: int|
                0 <= i < self.spec_entries().len() && (#[trigger] self.spec_entries()[i]).id == id
                    && *p == self.spec_revealed()[i] && (self.cache_ok() ==> opens_to(
                    encode_utf8(self.spec_master()),
                    self.spec_entries()[i].password@,
                    encode_utf8(p@),
                )),
    {
        let n = self.entries.len();
        let mut i: usize = 0;
        while i < n
            invariant
                n == self.spec_entries().len(),
                i <= n,
                self.wf(),
                self.is_unlocked(),
                forall|j: int| 0 <= j < i ==> (#[trigger] self.spec_entries()[j]).id != id,
            decreases n - i,
        {
            if self.entries[i].id == id {
                return Some(&self.revealed[i]);
            }
            i += 1;
        }
        None
    }

    /// The stored entries, secrets still in envelope form.
    pub fn list_entries(&self) -> (r: &Vec<PasswordEntry>)
        ensures
            r@ == self.spec_entries(),
    {
        &self.entries
    }

    /// The id the next inserted entry receives.
    pub fn next_id(&self) -> (r: i32)
        ensures
            r as int == self.spec_next_id(),
    {
        self.next_id
    }

    /// Whether the session is currently unlocked.
    pub fn is_logged_in(&self) -> (b: bool)
        ensures
            b == self.is_unlocked(),
    {
        self.logged_in
    }
}

} // verus!

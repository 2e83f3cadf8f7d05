//! An in-memory collection of credential entries keyed by site.
//!
//! Entries hold their fields as plain text in memory; the collection is
//! sealed as a single envelope only when it is persisted, which the
//! surrounding application does through [`crate::envelope::encrypt`] and
//! [`crate::envelope::decrypt`].

use vstd::prelude::*;

verus! {

/// One credential: a site, a username, and the password for them.
pub struct PasswordEntry {
    pub site: String,
    pub username: String,
    pub password: String,
}

/// The collection of credential entries, in insertion order. Sites need not
/// be unique; operations keyed by site act on the first match.
pub struct PasswordManager {
    pub entries: Vec<PasswordEntry>,
}

/// No entry of `s` has the site `site`.
pub open spec fn no_site(s: Seq<PasswordEntry>, site: Seq<char>) -> bool {
    forall|i: int| 0 <= i < s.len() ==> (#[trigger] s[i]).site@ != site
}

/// `i` is the first index of `s` whose entry has the site `site`.
pub open spec fn first_site_match(s: Seq<PasswordEntry>, site: Seq<char>, i: int) -> bool {
    &&& 0 <= i < s.len()
    &&& s[i].site@ == site
    &&& no_site(s.take(i), site)
}

/// `s` with every entry of site `site` removed, order otherwise kept.
pub open spec fn without_site(s: Seq<PasswordEntry>, site: Seq<char>) -> Seq<PasswordEntry>
    decreases s.len(),
{
    if s.len() == 0 {
        Seq::empty()
    } else if s[0].site@ == site {
        without_site(s.drop_first(), site)
    } else {
        seq![s[0]] + without_site(s.drop_first(), site)
    }
}

/// `post` is `pre` with the entry at `i` given a new username and password,
/// its site and every other entry unchanged.
pub open spec fn updated_entry_at(
    pre: Seq<PasswordEntry>,
    post: Seq<PasswordEntry>,
    i: int,
    username: Seq<char>,
    password: Seq<char>,
) -> bool {
    &&& post.len() == pre.len()
    &&& forall|j: int| 0 <= j < pre.len() && j != i ==> post[j] == pre[j]
    &&& post[i].site@ == pre[i].site@
    &&& post[i].username@ == username
    &&& post[i].password@ == password
}

impl PasswordManager {
    /// An empty collection.
    pub fn new() -> (r: Self)
        ensures
            r.entries@.len() == 0,
    {
        PasswordManager { entries: Vec::new() }
    }

    /// Appends an entry.
    pub fn add_entry(&mut self, site: String, username: String, password: String)
        ensures
            final(self).entries@.len() == old(self).entries@.len() + 1,
            final(self).entries@.drop_last() == old(self).entries@,
            final(self).entries@.last().site@ == site@,
            final(self).entries@.last().username@ == username@,
            final(self).entries@.last().password@ == password@,
    {
        self.entries.push(PasswordEntry { site, username, password });
        proof {
            assert(self.entries@.drop_last() =~= old(self).entries@);
        }
    }

    /// Removes every entry whose site equals `site`.
    pub fn remove_entry(&mut self, site: &str)
        ensures
            final(self).entries@ == without_site(old(self).entries@, site@),
    {
        let key = site.to_owned();
        let mut kept: Vec<PasswordEntry> = Vec::new();
        proof {
            assert(old(self).entries@ =~= kept@ + self.entries@);
        }
        while self.entries.len() > 0
            invariant
                without_site(old(self).entries@, site@) == kept@ + without_site(
                    self.entries@,
                    site@,
                ),
                key@ == site@,
            decreases self.entries.len(),
        {
            let ghost pre = self.entries@;
            let ghost kept_pre = kept@;
            let e = self.entries.remove(0);
            proof {
                assert(self.entries@ =~= pre.drop_first());
            }
            if !(e.site == key) {
                kept.push(e);
                proof {
                    assert(kept@ =~= kept_pre + seq![pre[0]]);
                    assert(kept_pre + (seq![pre[0]] + without_site(pre.drop_first(), site@))
                        =~= (kept_pre + seq![pre[0]]) + without_site(pre.drop_first(), site@));
                }
            }
        }
        self.entries = kept;
        proof {
            assert(self.entries@ + without_site(Seq::<PasswordEntry>::empty(), site@)
                =~= self.entries@);
        }
    }

    /// Gives the first entry of site `site` a new username and password;
    /// leaves the collection as it was when no entry has that site.
    pub fn update_entry(&mut self, site: &str, username: String, password: String)
        ensures
            no_site(old(self).entries@, site@) ==> final(self).entries@ == old(self).entries@,
            forall|i: int|
                first_site_match(old(self).entries@, site@, i) ==> updated_entry_at(
                    old(self).entries@,
                    final(self).entries@,
                    i,
                    username@,
                    password@,
                ),
    {
        let key = site.to_owned();
        let mut i: usize = 0;
        let n = self.entries.len();
        while i < n
            invariant
                n == self.entries@.len(),
                i <= n,
                *self == *old(self),
                key@ == site@,
                no_site(self.entries@.take(i as int), site@),
            decreases n - i,
        {
            if self.entries[i].site == key {
                let ghost pre = self.entries@;
                let e = self.entries.remove(i);
                let replacement = PasswordEntry { site: e.site, username, password };
                self.entries.insert(i, replacement);
                proof {
                    assert(first_site_match(pre, site@, i as int));
                    assert forall|j: int| 0 <= j < pre.len() && j != i implies self.entries@[j]
                        == pre[j] by {
                        assert(self.entries@[j] == pre.remove(i as int).insert(
                            i as int,
                            replacement,
                        )[j]);
                    }
                    assert forall|k: int| first_site_match(pre, site@, k) implies k == i as int by {
                        if k < i as int {
                            assert(pre.take(i as int)[k] == pre[k]);
                        } else if k > i as int {
                            assert(pre.take(k)[i as int] == pre[i as int]);
                        }
                    }
                }
                return ;
            }
            i += 1;
            proof {
                assert(no_site(self.entries@.take(i as int), site@));
            }
        }
        proof {
            assert(self.entries@.take(n as int) =~= self.entries@);
        }
    }

    /// The first entry of site `site`, when there is one.
    pub fn get_entry(&self, site: &str) -> (r: Option<&PasswordEntry>)
        ensures
            r is None <==> no_site(self.entries@, site@),
            r matches Some(e) ==> exists|i: int|
                #[trigger] first_site_match(self.entries@, site@, i) && *e == self.entries@[i],
    {
        let key = site.to_owned();
        let mut i: usize = 0;
        let n = self.entries.len();
        while i < n
            invariant
                n == self.entries@.len(),
                i <= n,
                key@ == site@,
                no_site(self.entries@.take(i as int), site@),
            decreases n - i,
        {
            if self.entries[i].site == key {
                proof {
                    assert(first_site_match(self.entries@, site@, i as int));
                }
                return Some(&self.entries[i]);
            }
            i += 1;
            proof {
                assert(no_site(self.entries@.take(i as int), site@));
            }
        }
        proof {
            assert(self.entries@.take(n as int) =~= self.entries@);
        }
        None
    }
}

} // verus!

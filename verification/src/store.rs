//! The stored-credential collection: the storage collaborator's contract,
//! held in memory.
//!
//! Storage is consumed through four narrow operations — lookup by
//! identifier, insert, partial field update, delete — each assumed atomic
//! and answering absence with `None`. This module gives those operations a
//! verified model: a record sequence with unique identifiers, against which
//! every pipeline contract is stated. The stored secret is only ever the
//! hash string, never the plaintext.

use vstd::prelude::*;

verus! {

use vstd::utf8::encode_utf8;
use crate::ascii::str_eq;
use crate::claims::token_safe;
use crate::hashing::hash_wellformed;
use crate::validate::clone_string;

/// A persisted user record.
#[derive(Debug)]
pub struct StoredUser {
    /// The record's internal subject key, used as a token subject.
    pub id: String,
    /// The unique, immutable account identifier.
    pub user_id: String,
    /// The salted hash string of the account secret. Never the plaintext,
    /// and never handed back to any client.
    pub password: String,
    /// The display name; starts out as the identifier.
    pub nickname: String,
    /// The free-text comment, if any was ever set.
    pub comment: Option<String>,
}

/// The mathematical shadow of a record.
pub struct UserRec {
    /// The subject key's characters.
    pub id: Seq<char>,
    /// The identifier's characters.
    pub user_id: Seq<char>,
    /// The hash string's characters.
    pub password: Seq<char>,
    /// The display name's characters.
    pub nickname: Seq<char>,
    /// The comment's characters, where one is set.
    pub comment: Option<Seq<char>>,
}

impl View for StoredUser {
    type V = UserRec;

    open spec fn view(&self) -> UserRec {
        UserRec {
            id: self.id@,
            user_id: self.user_id@,
            password: self.password@,
            nickname: self.nickname@,
            comment: match self.comment {
                Some(c) => Some(c@),
                None => None,
            },
        }
    }
}

/// A copy of a record with the same contents.
pub fn clone_user(u: &StoredUser) -> (r: StoredUser)
    ensures
        r@ == u@,
{
    StoredUser {
        id: clone_string(&u.id),
        user_id: clone_string(&u.user_id),
        password: clone_string(&u.password),
        nickname: clone_string(&u.nickname),
        comment: match &u.comment {
            Some(c) => Some(clone_string(c)),
            None => None,
        },
    }
}

/// The record with identifier `uid`, if one is in `s`: the first match,
/// which under `store_wf` is the only one.
pub open spec fn lookup(s: Seq<UserRec>, uid: Seq<char>) -> Option<UserRec>
    decreases s.len(),
{
    if s.len() == 0 {
        None
    } else if s[0].user_id == uid {
        Some(s[0])
    } else {
        lookup(s.drop_first(), uid)
    }
}

/// The store's invariant: identifiers are unique, every subject key is fit
/// to stand in a token, and every stored secret is a well-formed hash
/// string — never unreadable data, and so never the plaintext.
pub open spec fn store_wf(s: Seq<UserRec>) -> bool {
    &&& forall|i: int, j: int|
        0 <= i < j < s.len() ==> (#[trigger] s[i].user_id) != (#[trigger] s[j].user_id)
    &&& forall|i: int| 0 <= i < s.len() ==> token_safe(encode_utf8(#[trigger] s[i].id))
    &&& forall|i: int| 0 <= i < s.len() ==> hash_wellformed(#[trigger] s[i].password)
}

/// `lookup` finds exactly the records that are present.
pub proof fn lemma_lookup_index(s: Seq<UserRec>, uid: Seq<char>)
    ensures
        lookup(s, uid) matches Some(u) ==> exists|i: int|
            0 <= i < s.len() && s[i] == u && (#[trigger] s[i].user_id) == uid,
        lookup(s, uid) is None ==> forall|i: int|
            0 <= i < s.len() ==> (#[trigger] s[i].user_id) != uid,
    decreases s.len(),
{
    if s.len() > 0 {
        lemma_lookup_index(s.drop_first(), uid);
        if s[0].user_id != uid {
            if lookup(s, uid) is Some {
                let u = lookup(s, uid).unwrap();
                let i = choose|i: int|
                    0 <= i < s.drop_first().len() && s.drop_first()[i] == u && (#[trigger] s
                        .drop_first()[i].user_id) == uid;
                assert(s[i + 1] == u && s[i + 1].user_id == uid);
            } else {
                assert forall|i: int| 0 <= i < s.len() implies (#[trigger] s[i].user_id)
                    != uid by {
                    if i > 0 {
                        assert(s.drop_first()[i - 1].user_id != uid);
                    }
                }
            }
        }
    }
}

/// Appending a record with a fresh identifier leaves every other lookup
/// alone and makes the new one found.
pub proof fn lemma_lookup_push(s: Seq<UserRec>, u: UserRec)
    requires
        lookup(s, u.user_id) is None,
    ensures
        lookup(s.push(u), u.user_id) == Some(u),
        forall|uid: Seq<char>| uid != u.user_id ==> lookup(s.push(u), uid) == lookup(s, uid),
    decreases s.len(),
{
    if s.len() == 0 {
        assert(s.push(u).drop_first() =~= Seq::<UserRec>::empty());
        assert forall|uid: Seq<char>| uid != u.user_id implies lookup(s.push(u), uid) == lookup(
            s,
            uid,
        ) by {
            if s.push(u)[0].user_id == uid {
            } else {
                assert(lookup(s.push(u), uid) == lookup(s.push(u).drop_first(), uid));
            }
        }
    } else {
        lemma_lookup_push(s.drop_first(), u);
        assert(s.push(u).drop_first() =~= s.drop_first().push(u));
        assert(s[0].user_id != u.user_id);
        assert forall|uid: Seq<char>| uid != u.user_id implies lookup(s.push(u), uid) == lookup(
            s,
            uid,
        ) by {
            if s[0].user_id != uid {
                assert(lookup(s.push(u), uid) == lookup(s.drop_first().push(u), uid));
                assert(lookup(s, uid) == lookup(s.drop_first(), uid));
            }
        }
    }
}

/// Replacing the record at `i` with one keeping its identifier changes that
/// identifier's lookup to the new record and no other.
pub proof fn lemma_lookup_update(s: Seq<UserRec>, i: int, u: UserRec)
    requires
        store_wf(s),
        0 <= i < s.len(),
        u.user_id == s[i].user_id,
    ensures
        lookup(s.update(i, u), u.user_id) == Some(u),
        forall|uid: Seq<char>| uid != u.user_id ==> lookup(s.update(i, u), uid) == lookup(s, uid),
    decreases s.len(),
{
    if i == 0 {
        assert(s.update(0, u)[0] == u);
        assert forall|uid: Seq<char>| uid != u.user_id implies lookup(s.update(0, u), uid)
            == lookup(s, uid) by {
            assert(s.update(0, u).drop_first() =~= s.drop_first());
        }
    } else {
        assert(store_wf(s.drop_first())) by {
            assert forall|a: int, b: int|
                0 <= a < b < s.drop_first().len() implies (#[trigger] s.drop_first()[a].user_id)
                != (#[trigger] s.drop_first()[b].user_id) by {
                assert(s[a + 1].user_id != s[b + 1].user_id);
            }
            assert forall|a: int| 0 <= a < s.drop_first().len() implies token_safe(
                encode_utf8(#[trigger] s.drop_first()[a].id),
            ) by {
                assert(token_safe(encode_utf8(s[a + 1].id)));
            }
            assert forall|a: int| 0 <= a < s.drop_first().len() implies hash_wellformed(
                #[trigger] s.drop_first()[a].password,
            ) by {
                assert(hash_wellformed(s[a + 1].password));
            }
        }
        lemma_lookup_update(s.drop_first(), i - 1, u);
        assert(s.update(i, u).drop_first() =~= s.drop_first().update(i - 1, u));
        assert(s[0].user_id != s[i].user_id);
        assert(s.update(i, u)[0] == s[0]);
        assert forall|uid: Seq<char>| uid != u.user_id implies lookup(s.update(i, u), uid)
            == lookup(s, uid) by {
            if s[0].user_id != uid {
                assert(lookup(s.update(i, u), uid) == lookup(s.drop_first().update(i - 1, u), uid));
                assert(lookup(s, uid) == lookup(s.drop_first(), uid));
            }
        }
    }
}

/// Removing the record at `i` removes its identifier's lookup and no other.
pub proof fn lemma_lookup_remove(s: Seq<UserRec>, i: int)
    requires
        store_wf(s),
        0 <= i < s.len(),
    ensures
        lookup(s.remove(i), s[i].user_id) is None,
        forall|uid: Seq<char>| uid != s[i].user_id ==> lookup(s.remove(i), uid) == lookup(s, uid),
    decreases s.len(),
{
    if i == 0 {
        assert(s.remove(0) =~= s.drop_first());
        lemma_lookup_index(s.drop_first(), s[0].user_id);
        if lookup(s.drop_first(), s[0].user_id) is Some {
            let u = lookup(s.drop_first(), s[0].user_id).unwrap();
            let k = choose|k: int|
                0 <= k < s.drop_first().len() && s.drop_first()[k] == u && (#[trigger] s
                    .drop_first()[k].user_id) == s[0].user_id;
            assert(s[k + 1].user_id == s[0].user_id);
        }
        assert forall|uid: Seq<char>| uid != s[0].user_id implies lookup(s.remove(0), uid)
            == lookup(s, uid) by {
            assert(lookup(s, uid) == lookup(s.drop_first(), uid));
        }
    } else {
        assert(store_wf(s.drop_first())) by {
            assert forall|a: int, b: int|
                0 <= a < b < s.drop_first().len() implies (#[trigger] s.drop_first()[a].user_id)
                != (#[trigger] s.drop_first()[b].user_id) by {
                assert(s[a + 1].user_id != s[b + 1].user_id);
            }
            assert forall|a: int| 0 <= a < s.drop_first().len() implies token_safe(
                encode_utf8(#[trigger] s.drop_first()[a].id),
            ) by {
                assert(token_safe(encode_utf8(s[a + 1].id)));
            }
            assert forall|a: int| 0 <= a < s.drop_first().len() implies hash_wellformed(
                #[trigger] s.drop_first()[a].password,
            ) by {
                assert(hash_wellformed(s[a + 1].password));
            }
        }
        lemma_lookup_remove(s.drop_first(), i - 1);
        assert(s.remove(i).drop_first() =~= s.drop_first().remove(i - 1));
        assert(s.remove(i)[0] == s[0]);
        assert(s[0].user_id != s[i].user_id);
        assert(s.drop_first()[i - 1] == s[i]);
        assert forall|uid: Seq<char>| uid != s[i].user_id implies lookup(s.remove(i), uid)
            == lookup(s, uid) by {
            if s[0].user_id != uid {
                assert(lookup(s.remove(i), uid) == lookup(s.drop_first().remove(i - 1), uid));
                assert(lookup(s, uid) == lookup(s.drop_first(), uid));
            }
        }
    }
}

/// A record that `lookup` finds enjoys the store invariant's per-record
/// facts: a token-safe subject key and a well-formed stored hash.
pub proof fn lemma_lookup_wellformed(s: Seq<UserRec>, uid: Seq<char>)
    requires
        store_wf(s),
        lookup(s, uid) is Some,
    ensures
        hash_wellformed(lookup(s, uid).unwrap().password),
        token_safe(encode_utf8(lookup(s, uid).unwrap().id)),
{
    lemma_lookup_index(s, uid);
    let u = lookup(s, uid).unwrap();
    let i = choose|i: int|
        0 <= i < s.len() && s[i] == u && (#[trigger] s[i].user_id) == uid;
    assert(hash_wellformed(s[i].password));
    assert(token_safe(encode_utf8(s[i].id)));
}

/// The stored-credential collection.
pub struct UserStore {
    users: Vec<StoredUser>,
}

impl View for UserStore {
    type V = Seq<UserRec>;

    closed spec fn view(&self) -> Seq<UserRec> {
        Seq::new(self.users@.len(), |i: int| self.users@[i]@)
    }
}

impl UserStore {
    /// The store's invariant, as a predicate on the store itself.
    pub open spec fn wf(&self) -> bool {
        store_wf(self@)
    }

    /// An empty store.
    pub fn new() -> (r: UserStore)
        ensures
            r@ =~= Seq::<UserRec>::empty(),
            r.wf(),
    {
        UserStore { users: Vec::new() }
    }

    /// How many records the store holds.
    pub fn len(&self) -> (r: usize)
        ensures
            r == self@.len(),
    {
        self.users.len()
    }

    /// The record at position `i`.
    pub fn record_at(&self, i: usize) -> (r: &StoredUser)
        requires
            i < self@.len(),
        ensures
            r@ == self@[i as int],
    {
        &self.users[i]
    }

    /// The index of the record with identifier `uid`, if present.
    fn find_index(&self, uid: &str) -> (r: Option<usize>)
        ensures
            r matches Some(i) ==> i < self@.len() && self@[i as int].user_id == uid@ && lookup(
                self@,
                uid@,
            ) == Some(self@[i as int]),
            r is None ==> lookup(self@, uid@) is None,
    {
        let n = self.users.len();
        let mut i: usize = 0;
        while i < n
            invariant
                0 <= i <= n,
                n == self@.len(),
                n == self.users@.len(),
                forall|k: int| 0 <= k < i ==> (#[trigger] self@[k].user_id) != uid@,
            decreases n - i,
        {
            if str_eq(self.users[i].user_id.as_str(), uid) {
                proof {
                    assert(self@[i as int].user_id == uid@);
                    lemma_lookup_found(self@, uid@, i as int);
                }
                return Some(i);
            }
            i += 1;
        }
        proof {
            lemma_lookup_index(self@, uid@);
            if lookup(self@, uid@) is Some {
                let u = lookup(self@, uid@).unwrap();
                let k = choose|k: int|
                    0 <= k < self@.len() && self@[k] == u && (#[trigger] self@[k].user_id) == uid@;
                assert((#[trigger] self@[k].user_id) != uid@);
            }
        }
        None
    }

    /// The record with identifier `uid`, if present; exactly `lookup`.
    pub fn find_by_user_id(&self, uid: &str) -> (r: Option<&StoredUser>)
        ensures
            r matches Some(u) ==> lookup(self@, uid@) == Some(u@),
            r is None <==> lookup(self@, uid@) is None,
    {
        match self.find_index(uid) {
            Some(i) => Some(&self.users[i]),
            None => None,
        }
    }

    /// Appends a record whose identifier is not yet taken.
    pub fn insert(&mut self, user: StoredUser)
        requires
            old(self).wf(),
            lookup(old(self)@, user.user_id@) is None,
            token_safe(encode_utf8(user.id@)),
            hash_wellformed(user.password@),
        ensures
            final(self)@ == old(self)@.push(user@),
            final(self).wf(),
            lookup(final(self)@, user.user_id@) == Some(user@),
            forall|uid: Seq<char>|
                uid != user.user_id@ ==> lookup(final(self)@, uid) == lookup(old(self)@, uid),
    {
        proof {
            lemma_lookup_push(self@, user@);
            lemma_lookup_index(self@, user.user_id@);
        }
        let ghost pre = self@;
        let ghost urec = user@;
        self.users.push(user);
        proof {
            assert(self@ =~= pre.push(urec));
            assert forall|i: int, j: int|
                0 <= i < j < self@.len() implies (#[trigger] self@[i].user_id) != (
            #[trigger] self@[j].user_id) by {
                if j < pre.len() {
                } else {
                    assert(self@[j] == urec);
                    assert(pre[i].user_id != urec.user_id);
                }
            }
            assert forall|a: int| 0 <= a < self@.len() implies hash_wellformed(
                #[trigger] self@[a].password,
            ) by {
                if a < pre.len() {
                    assert(hash_wellformed(pre[a].password));
                } else {
                    assert(self@[a] == urec);
                }
            }
        }
    }

    /// Updates the record with identifier `uid` in place: a field provided
    /// replaces the stored one, a field absent leaves it untouched. Returns
    /// the record as stored afterwards, or `None` — with nothing changed —
    /// when no record has that identifier.
    pub fn update_fields(
        &mut self,
        uid: &str,
        nickname: Option<&crate::validate::Nickname>,
        comment: Option<&crate::validate::Comment>,
    ) -> (r: Option<StoredUser>)
        requires
            old(self).wf(),
        ensures
            final(self).wf(),
            r is None <==> lookup(old(self)@, uid@) is None,
            r is None ==> final(self)@ == old(self)@,
            r matches Some(u) ==> (lookup(old(self)@, uid@) matches Some(prev) && {
                &&& u@.id == prev.id
                &&& u@.user_id == prev.user_id
                &&& u@.password == prev.password
                &&& u@.nickname == (match nickname {
                    Some(m) => m@,
                    None => prev.nickname,
                })
                &&& u@.comment == (match comment {
                    Some(c) => Some(c@),
                    None => prev.comment,
                })
                &&& lookup(final(self)@, uid@) == Some(u@)
                &&& final(self)@ == old(self)@.update(
                    choose|i: int| 0 <= i < old(self)@.len() && old(self)@[i] == prev,
                    u@,
                )
                &&& forall|other: Seq<char>|
                    other != uid@ ==> lookup(final(self)@, other) == lookup(old(self)@, other)
            }),
    {
        let i = match self.find_index(uid) {
            Some(i) => i,
            None => {
                return None;
            },
        };
        let ghost pre = self@;
        let ghost prev = self@[i as int];
        let old_user = &self.users[i];
        let new_user = StoredUser {
            id: clone_string(&old_user.id),
            user_id: clone_string(&old_user.user_id),
            password: clone_string(&old_user.password),
            nickname: match nickname {
                Some(m) => m.as_str().to_owned(),
                None => clone_string(&old_user.nickname),
            },
            comment: match comment {
                Some(c) => Some(c.as_str().to_owned()),
                None => match &old_user.comment {
                    Some(c) => Some(clone_string(c)),
                    None => None,
                },
            },
        };
        let result = clone_user(&new_user);
        let ghost urec = new_user@;
        self.users[i] = new_user;
        proof {
            assert(self@ =~= pre.update(i as int, urec));
            lemma_lookup_update(pre, i as int, urec);
            assert forall|a: int, b: int|
                0 <= a < b < self@.len() implies (#[trigger] self@[a].user_id) != (
            #[trigger] self@[b].user_id) by {
                assert(pre[a].user_id == self@[a].user_id || a == i);
                assert(pre[b].user_id == self@[b].user_id || b == i);
                assert(pre[a].user_id != pre[b].user_id);
            }
            assert forall|a: int| 0 <= a < self@.len() implies token_safe(
                encode_utf8(#[trigger] self@[a].id),
            ) by {
                assert(token_safe(encode_utf8(pre[a].id)));
            }
            assert forall|a: int| 0 <= a < self@.len() implies hash_wellformed(
                #[trigger] self@[a].password,
            ) by {
                assert(hash_wellformed(pre[a].password));
                assert(self@[a].password == pre[a].password || a == i);
            }
            let wi = choose|w: int| 0 <= w < pre.len() && pre[w] == prev;
            assert(pre[i as int] == prev);
            if wi != i {
                assert(pre[wi].user_id == pre[i as int].user_id);
            }
            assert(pre.update(wi, urec) == pre.update(i as int, urec));
        }
        Some(result)
    }

    /// Removes the record with identifier `uid` and returns it, or `None` —
    /// with nothing changed — when no record has that identifier.
    pub fn delete(&mut self, uid: &str) -> (r: Option<StoredUser>)
        requires
            old(self).wf(),
        ensures
            final(self).wf(),
            r is None <==> lookup(old(self)@, uid@) is None,
            r is None ==> final(self)@ == old(self)@,
            r matches Some(u) ==> (lookup(old(self)@, uid@) == Some(u@) && {
                &&& lookup(final(self)@, uid@) is None
                &&& final(self)@.len() + 1 == old(self)@.len()
                &&& forall|other: Seq<char>|
                    other != uid@ ==> lookup(final(self)@, other) == lookup(old(self)@, other)
            }),
    {
        let i = match self.find_index(uid) {
            Some(i) => i,
            None => {
                return None;
            },
        };
        let ghost pre = self@;
        let removed = self.users.remove(i);
        proof {
            assert(self@ =~= pre.remove(i as int));
            lemma_lookup_remove(pre, i as int);
            assert forall|a: int, b: int|
                0 <= a < b < self@.len() implies (#[trigger] self@[a].user_id) != (
            #[trigger] self@[b].user_id) by {
                let a0 = if a < i { a } else { a + 1 };
                let b0 = if b < i { b } else { b + 1 };
                assert(self@[a] == pre[a0] && self@[b] == pre[b0]);
                assert(pre[a0].user_id != pre[b0].user_id);
            }
            assert forall|a: int| 0 <= a < self@.len() implies token_safe(
                encode_utf8(#[trigger] self@[a].id),
            ) by {
                let a0 = if a < i { a } else { a + 1 };
                assert(self@[a] == pre[a0]);
                assert(token_safe(encode_utf8(pre[a0].id)));
            }
            assert forall|a: int| 0 <= a < self@.len() implies hash_wellformed(
                #[trigger] self@[a].password,
            ) by {
                let a0 = if a < i { a } else { a + 1 };
                assert(self@[a] == pre[a0]);
                assert(hash_wellformed(pre[a0].password));
            }
        }
        Some(removed)
    }
}

/// A record at an index whose earlier records all miss is what `lookup`
/// returns.
proof fn lemma_lookup_found(s: Seq<UserRec>, uid: Seq<char>, i: int)
    requires
        0 <= i < s.len(),
        s[i].user_id == uid,
        forall|k: int| 0 <= k < i ==> (#[trigger] s[k].user_id) != uid,
    ensures
        lookup(s, uid) == Some(s[i]),
    decreases s.len(),
{
    if i == 0 {
    } else {
        assert forall|k: int| 0 <= k < i - 1 implies (#[trigger] s.drop_first()[k].user_id)
            != uid by {
            assert(s[k + 1].user_id != uid);
        }
        assert(s.drop_first()[i - 1] == s[i]);
        lemma_lookup_found(s.drop_first(), uid, i - 1);
        assert(s[0].user_id != uid);
    }
}

} // verus!

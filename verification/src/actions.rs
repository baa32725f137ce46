//! The account actions, and the authenticator that gates them.
//!
//! Every protected request runs the same pipeline: credentials are extracted
//! from the request's metadata, checked against the stored hash or the token
//! secret, and turned into a `Principal`; the handler then validates its
//! input fields and asks the authorization check before anything touches the
//! store. Rejections at every stage collapse into one indistinguishable
//! authentication failure — an unknown identifier and a wrong secret in
//! particular produce the very same value.

use vstd::prelude::*;

verus! {

use vstd::string::{StrSliceExecFns, StringExecFns};
use vstd::utf8::{decode_utf8, encode_utf8, valid_utf8};
use crate::Principal;
use crate::ascii::str_eq;
use crate::claims::token_safe;
use crate::errors::{AuthError, SignupError, UpdateError};
use crate::extract::{
    basic_prefix_chars, basic_rest, bearer_prefix_chars, extract_basic,
    extract_bearer, has_prefix, splits_at_first_colon,
};
use crate::b64::b64std_of;
use crate::hashing::{PasswordError, hash_matches, hash_password, hash_wellformed, verify_password};
use crate::store::{StoredUser, UserStore, clone_user, lemma_lookup_wellformed, lookup};
use crate::token::{MAX_ISSUED_AT, TokenError, issue_jwt_at, valid_signed_token, verify_jwt};
use crate::validate::{Signup, UpdateUserDto, ValidSignup, ValidUpdate, clone_string,
    valid_user_id};

/// What a signup call answers: the identifier, echoed as the fresh display
/// name too, and never any secret or hash.
#[derive(Debug)]
pub struct SignupResponse {
    /// The identifier the account was created under.
    pub user_id: String,
    /// The display name, which starts out equal to the identifier.
    pub nickname: String,
}

/// What a profile read answers. The identifier is omitted where the route
/// already named it.
#[derive(Debug)]
pub struct GetUserResponse {
    /// The identifier, where the response carries it.
    pub user_id: Option<String>,
    /// The stored display name.
    pub nickname: String,
    /// The stored comment, if any.
    pub comment: Option<String>,
}

/// What a sign-in request carries.
#[derive(Debug)]
pub struct Signin {
    /// The account identifier.
    pub user_id: String,
    /// The plaintext secret to check.
    pub password: String,
}

/// An identifier as it travels with an authenticated request.
pub struct BasicId {
    s: String,
}

impl View for BasicId {
    type V = Seq<char>;

    closed spec fn view(&self) -> Seq<char> {
        self.s@
    }
}

impl BasicId {
    /// Wraps an identifier.
    pub fn new(s: String) -> (r: BasicId)
        ensures
            r@ == s@,
    {
        BasicId { s }
    }

    /// The identifier's text.
    pub fn as_str(&self) -> (r: &str)
        ensures
            r@ == self@,
    {
        self.s.as_str()
    }
}

/// The authorization check's verdict.
pub enum AuthzDecision {
    /// The principal acts on its own record.
    Allowed,
    /// The principal asked for someone else's record.
    Forbidden {
        /// Who asked.
        requester: String,
        /// Whose record they asked for.
        requested: String,
    },
}

/// Evidence that a basic credential in header text `h` authenticates `id`:
/// some base64 payload behind the basic scheme splits into `id` and a secret
/// that matches the stored hash of `id`'s record.
pub open spec fn basic_auth_evidence(store: Seq<crate::store::UserRec>, h: Seq<char>, id: Seq<char>) -> bool {
    exists|payload: Seq<u8>, pwb: Seq<u8>|
        {
            &&& #[trigger] b64std_of(payload) == basic_rest(h)
            &&& #[trigger] splits_at_first_colon(payload, encode_utf8(id), pwb)
            &&& pwb.len() > 0
            &&& lookup(store, id) matches Some(u) && hash_matches(pwb, u.password)
        }
}

/// Evidence that header text `h` carries a bearer token valid for subject
/// `sub` at time `now` under `secret`.
pub open spec fn bearer_auth_evidence(h: Seq<char>, secret: Seq<u8>, sub: Seq<u8>, now: u64) -> bool {
    exists|iat: u64, exp: u64|
        #[trigger] valid_signed_token(
            encode_utf8(h.subrange(7, h.len() as int)),
            secret,
            sub,
            iat,
            exp,
        ) && now < exp
}

/// Self-only authorization: a principal may act on a target exactly when the
/// target identifier is its own, compared exactly and case-sensitively. A
/// denial names both identities.
pub fn authorize(principal: &Principal, target: &str) -> (r: AuthzDecision)
    ensures
        r matches AuthzDecision::Allowed <==> principal.id@ == target@,
        r matches AuthzDecision::Forbidden { requester, requested } ==> (principal.id@ != target@
            && requester@ == principal.id@ && requested@ == target@),
{
    if str_eq(principal.id.as_str(), target) {
        AuthzDecision::Allowed
    } else {
        AuthzDecision::Forbidden {
            requester: clone_string(&principal.id),
            requested: target.to_owned(),
        }
    }
}

/// Relies on uuid's `Uuid::new_v4` and its hyphenated `to_string`: 36
/// characters of lowercase hex digits and hyphens — printable ASCII without
/// `"` or `\`, so fit to stand in a token.
#[verifier::external_body]
fn fresh_subject_key() -> (r: String)
    ensures
        token_safe(encode_utf8(r@)),
{
    uuid::Uuid::new_v4().to_string()
}

/// Creates an account: the payload is validated structurally, then against
/// the field rules; the identifier must be free — checked before any hashing
/// work — and the secret is stored only as its salted hash. The response
/// echoes the identifier and the fresh display name, and nothing else.
pub fn signup(store: &mut UserStore, payload: Signup) -> (r: Result<SignupResponse, SignupError>)
    requires
        old(store).wf(),
    ensures
        final(store).wf(),
        r is Err ==> final(store)@ == old(store)@,
        payload.user_id is None ==> r matches Err(SignupError::InvalidPayload),
        payload.user_id matches Some(u) ==> (!valid_user_id(u@) ==> (r matches Err(
            SignupError::Validation { field, reason },
        ) && field@ == "user_id"@ && (if encode_utf8(u@).len()
            >= crate::validate::USER_ID_MAX_LENGTH {
            reason@ == "must be less or equal to 20"@
        } else {
            reason@ == "must be greater than or equal to 8"@
        }))),
        payload.user_id matches Some(u) ==> ((valid_user_id(u@) && payload.password is None) ==> r
            matches Err(SignupError::InvalidPayload)),
        payload.user_id matches Some(u) ==> ((valid_user_id(u@) && payload.password is Some
            && lookup(old(store)@, u@) is Some) ==> (r matches Err(
            SignupError::UserAlreadyExists(x),
        ) && x@ == u@)),
        payload.user_id matches Some(u) ==> ((valid_user_id(u@) && payload.password is Some
            && lookup(old(store)@, u@) is None) ==> (r is Ok || r matches Err(
            SignupError::PasswordHash,
        ))),
        r matches Ok(resp) ==> (payload.user_id matches Some(u) && (payload.password matches Some(
            pw,
        ) && {
            &&& valid_user_id(u@)
            &&& lookup(old(store)@, u@) is None
            &&& resp.user_id@ == u@
            &&& resp.nickname@ == u@
            &&& final(store)@ == old(store)@.push(final(store)@.last())
            &&& final(store)@.last().user_id == u@
            &&& final(store)@.last().nickname == u@
            &&& final(store)@.last().comment is None
            &&& hash_matches(encode_utf8(pw@), final(store)@.last().password)
            &&& hash_wellformed(final(store)@.last().password)
            &&& forall|other: Seq<u8>|
                other != encode_utf8(pw@) ==> !hash_matches(
                    other,
                    final(store)@.last().password,
                )
        })),
{
    let valid = match ValidSignup::try_from(payload) {
        Ok(v) => v,
        Err(e) => {
            return Err(e);
        },
    };
    if let Some(_) = store.find_by_user_id(valid.user_id.as_str()) {
        return Err(SignupError::UserAlreadyExists(valid.user_id.as_str().to_owned()));
    }
    let hashed = match hash_password(valid.password.as_str()) {
        Ok(h) => h,
        Err(_) => {
            return Err(SignupError::PasswordHash);
        },
    };
    let id = fresh_subject_key();
    let user = StoredUser {
        id,
        user_id: valid.user_id.as_str().to_owned(),
        password: hashed,
        nickname: valid.user_id.as_str().to_owned(),
        comment: None,
    };
    let resp = SignupResponse {
        user_id: clone_string(&user.user_id),
        nickname: clone_string(&user.nickname),
    };
    let ghost urec = user@;
    store.insert(user);
    proof {
        assert(store@.last() == urec);
    }
    Ok(resp)
}

/// Signs a user in: the identifier is looked up, the secret checked against
/// the stored hash, and a token issued for the record's subject key with
/// claims `(now, now + ttl_secs)`. An unknown identifier and a wrong secret
/// return the very same rejection value — the only one besides a
/// signing-backend fault — so nothing reveals whether the account exists.
pub fn signin(
    store: &UserStore,
    creds: &Signin,
    jwt_secret: &[u8],
    now: u64,
    ttl_secs: u64,
) -> (r: Result<String, AuthError>)
    requires
        store.wf(),
        now <= MAX_ISSUED_AT,
        ttl_secs <= MAX_ISSUED_AT,
    ensures
        r matches Err(AuthError::InvalidCredentials) <==> (lookup(store@, creds.user_id@) is None
            || (lookup(store@, creds.user_id@) matches Some(u) && !hash_matches(
            encode_utf8(creds.password@),
            u.password,
        ))),
        r matches Err(e) ==> (e matches AuthError::InvalidCredentials || e
            matches AuthError::Signing),
        r matches Ok(tok) ==> (lookup(store@, creds.user_id@) matches Some(u) && (hash_matches(
            encode_utf8(creds.password@),
            u.password,
        ) && valid_signed_token(
            encode_utf8(tok@),
            jwt_secret@,
            encode_utf8(u.id),
            now,
            (now + ttl_secs) as u64,
        ))),
        lookup(store@, creds.user_id@) matches Some(u) ==> (hash_matches(
            encode_utf8(creds.password@),
            u.password,
        ) ==> (r is Ok || r matches Err(AuthError::Signing))),
{
    let user = match store.find_by_user_id(creds.user_id.as_str()) {
        Some(u) => u,
        None => {
            return Err(AuthError::InvalidCredentials);
        },
    };
    match verify_password(creds.password.as_str(), user.password.as_str()) {
        Ok(()) => {},
        Err(PasswordError::Mismatch) => {
            return Err(AuthError::InvalidCredentials);
        },
        Err(PasswordError::MalformedHash) => {
            // The store invariant keeps every stored hash well-formed.
            proof {
                lemma_lookup_wellformed(store@, creds.user_id@);
            }
            vstd::pervasive::unreached()
        },
    }
    let exp = now + ttl_secs;
    proof {
        lemma_lookup_wellformed(store@, creds.user_id@);
    }
    match issue_jwt_at(user.id.as_str(), jwt_secret, now, exp) {
        Ok(tok) => Ok(tok),
        Err(_) => Err(AuthError::Signing),
    }
}

/// Authenticates a request by its basic credential: extraction, lookup and
/// secret check in order, every failure — absent header, wrong scheme,
/// unreadable credential, missing secret, unknown identifier, wrong secret —
/// collapsed into the one indistinguishable rejection value. The store
/// invariant keeps every stored hash readable, so no other outcome exists.
/// Nothing is mutated and no record is touched beyond the read-only lookup.
#[verifier::rlimit(100)]
#[verifier::spinoff_prover]
pub fn authenticate_basic(store: &UserStore, header: Option<&str>) -> (r: Result<
    Principal,
    AuthError,
>)
    requires
        store.wf(),
    ensures
        r is Ok ==> header is Some,
        header matches Some(h) ==> (r matches Ok(p) ==> (has_prefix(h@, basic_prefix_chars())
            && basic_auth_evidence(store@, h@, p.id@))),
        r matches Err(e) ==> e matches AuthError::InvalidCredentials,
        header is None ==> r matches Err(AuthError::InvalidCredentials),
        header matches Some(h) ==> (!has_prefix(h@, basic_prefix_chars()) ==> r matches Err(
            AuthError::InvalidCredentials,
        )),
        header matches Some(h) ==> forall|payload: Seq<u8>, idb: Seq<u8>|
            (#[trigger] b64std_of(payload) == basic_rest(h@) && #[trigger] splits_at_first_colon(
                payload,
                idb,
                Seq::<u8>::empty(),
            )) ==> r matches Err(AuthError::InvalidCredentials),
        header matches Some(h) ==> forall|payload: Seq<u8>, idb: Seq<u8>, pwb: Seq<u8>|
            ({
                &&& has_prefix(h@, basic_prefix_chars())
                &&& #[trigger] b64std_of(payload) == basic_rest(h@)
                &&& #[trigger] splits_at_first_colon(payload, idb, pwb)
                &&& pwb.len() > 0
                &&& valid_utf8(idb)
                &&& valid_utf8(pwb)
            }) ==> {
                &&& (lookup(store@, decode_utf8(idb)) matches Some(u) && hash_matches(
                    pwb,
                    u.password,
                ) ==> (r matches Ok(p) && p.id@ == decode_utf8(idb)))
                &&& (lookup(store@, decode_utf8(idb)) is None ==> r matches Err(
                    AuthError::InvalidCredentials,
                ))
                &&& (lookup(store@, decode_utf8(idb)) matches Some(u) && !hash_matches(
                    pwb,
                    u.password,
                ) ==> r matches Err(AuthError::InvalidCredentials))
            },
{
    broadcast use vstd::utf8::encode_utf8_decode_utf8;

    let creds = match extract_basic(header) {
        Ok(c) => c,
        Err(_) => {
            return Err(AuthError::InvalidCredentials);
        },
    };
    let (user_id, password) = creds;
    let user = match store.find_by_user_id(user_id.as_str()) {
        Some(u) => u,
        None => {
            return Err(AuthError::InvalidCredentials);
        },
    };
    match verify_password(password.as_str(), user.password.as_str()) {
        Ok(()) => {
            let ghost uid_view = user_id@;
            let ghost pwb0 = encode_utf8(password@);
            let p = Principal::new(user_id);
            proof {
                let h = choose|h: &str| header == Some(h);
                let payload = choose|payload: Seq<u8>|
                    #[trigger] b64std_of(payload) == basic_rest(h@) && splits_at_first_colon(
                        payload,
                        encode_utf8(uid_view),
                        pwb0,
                    ) && pwb0.len() > 0;
                assert(p.id@ == uid_view);
                assert(b64std_of(payload) == basic_rest(h@));
                assert(splits_at_first_colon(payload, encode_utf8(p.id@), pwb0));
                assert(lookup(store@, p.id@) matches Some(u) && hash_matches(pwb0, u.password));
                assert(basic_auth_evidence(store@, h@, p.id@));
            }
            Ok(p)
        },
        Err(PasswordError::Mismatch) => Err(AuthError::InvalidCredentials),
        Err(PasswordError::MalformedHash) => {
            // The store invariant keeps every stored hash well-formed.
            proof {
                lemma_lookup_wellformed(store@, user_id@);
            }
            vstd::pervasive::unreached()
        },
    }
}

/// Authenticates a request by its bearer token: the token is verified under
/// the signing secret at time `now`, and its subject becomes the principal.
/// No lookup happens on this path; every failure is a client-indistinct
/// rejection except a signing-backend fault.
#[verifier::rlimit(100)]
#[verifier::spinoff_prover]
pub fn authenticate_bearer(header: Option<&str>, jwt_secret: &[u8], now: u64) -> (r: Result<
    Principal,
    AuthError,
>)
    ensures
        r is Ok ==> header is Some,
        header matches Some(h) ==> (r matches Ok(p) ==> (has_prefix(h@, bearer_prefix_chars())
            && bearer_auth_evidence(h@, jwt_secret@, encode_utf8(p.id@), now))),
        r matches Err(e) ==> (e matches AuthError::InvalidCredentials || e
            matches AuthError::InvalidToken(_)),
        header matches Some(h) ==> forall|sub: Seq<u8>, iat: u64, exp: u64|
            ({
                &&& has_prefix(h@, bearer_prefix_chars())
                &&& #[trigger] valid_signed_token(
                    encode_utf8(h@.subrange(7, h@.len() as int)),
                    jwt_secret@,
                    sub,
                    iat,
                    exp,
                )
                &&& now < exp
            }) ==> ((r matches Ok(p) && encode_utf8(p.id@) == sub) || r matches Err(
                AuthError::InvalidToken(TokenError::Signing),
            )),
        header matches Some(h) ==> (r matches Err(AuthError::InvalidToken(t)) ==> (t
            == TokenError::Expired ==> (has_prefix(h@, bearer_prefix_chars()) && exists|
            sub: Seq<u8>,
            iat: u64,
            exp: u64,
        |
            #[trigger] valid_signed_token(
                encode_utf8(h@.subrange(7, h@.len() as int)),
                jwt_secret@,
                sub,
                iat,
                exp,
            ) && now >= exp))),
{
    let token = match extract_bearer(header) {
        Ok(t) => t,
        Err(_) => {
            return Err(AuthError::InvalidCredentials);
        },
    };
    match verify_jwt(token.as_str(), jwt_secret, now) {
        Ok(claims) => {
            let ghost iat0 = claims.iat;
            let ghost exp0 = claims.exp;
            let ghost sub_view = claims.sub@;
            let p = Principal::new(claims.sub);
            proof {
                let h = choose|h: &str| header == Some(h);
                assert(h@ =~= bearer_prefix_chars() + token@);
                assert(h@.subrange(0, 7) =~= bearer_prefix_chars());
                assert(h@.subrange(7, h@.len() as int) =~= token@);
                assert(p.id@ == sub_view);
                assert(valid_signed_token(
                    encode_utf8(h@.subrange(7, h@.len() as int)),
                    jwt_secret@,
                    encode_utf8(p.id@),
                    iat0,
                    exp0,
                ) && now < exp0);
                assert(bearer_auth_evidence(h@, jwt_secret@, encode_utf8(p.id@), now));
            }
            Ok(p)
        },
        Err(e) => {
            proof {
                if header is Some {
                    let h = choose|h: &str| header == Some(h);
                    if has_prefix(h@, bearer_prefix_chars()) {
                        assert(h@ =~= bearer_prefix_chars() + h@.subrange(7, h@.len() as int));
                        assert(token@ == h@.subrange(7, h@.len() as int));
                    }
                }
            }
            Err(AuthError::InvalidToken(e))
        },
    }
}

/// Why a single-record read failed.
#[derive(Debug, PartialEq, Eq)]
pub enum GetOneError {
    /// No record carries the requested key.
    NotFound(String),
}

/// Reads the record whose subject key is `id`: the first such record, or
/// `NotFound` exactly when no record carries the key.
pub fn get_one(store: &UserStore, id: &str) -> (r: Result<StoredUser, GetOneError>)
    ensures
        r matches Ok(u) ==> exists|i: int|
            0 <= i < store@.len() && #[trigger] store@[i] == u@ && store@[i].id == id@,
        r matches Err(e) ==> (e matches GetOneError::NotFound(x) && x@ == id@ && forall|i: int|
            0 <= i < store@.len() ==> (#[trigger] store@[i].id) != id@),
{
    let n = store.len();
    let mut i: usize = 0;
    while i < n
        invariant
            0 <= i <= n,
            n == store@.len(),
            forall|k: int| 0 <= k < i ==> (#[trigger] store@[k].id) != id@,
        decreases n - i,
    {
        let u = store.record_at(i);
        if str_eq(u.id.as_str(), id) {
            let found = clone_user(u);
            proof {
                assert(store@[i as int] == found@ && store@[i as int].id == id@);
            }
            return Ok(found);
        }
        i += 1;
    }
    Err(GetOneError::NotFound(id.to_owned()))
}

/// Reads the record with account identifier `user_id` and shapes it for a
/// response: identifier, stored display name, stored comment — never the
/// hash. `NotFound` exactly when the identifier is unknown.
pub fn get_one_by_str_id(store: &UserStore, user_id: &str) -> (r: Result<
    GetUserResponse,
    GetOneError,
>)
    ensures
        r matches Ok(resp) ==> (lookup(store@, user_id@) matches Some(u) && {
            &&& resp.user_id matches Some(x) && x@ == user_id@
            &&& resp.nickname@ == u.nickname
            &&& (match resp.comment {
                Some(c) => u.comment == Some(c@),
                None => u.comment is None,
            })
        }),
        r is Err <==> lookup(store@, user_id@) is None,
        r matches Err(e) ==> (e matches GetOneError::NotFound(x) && x@ == user_id@),
{
    let user = match store.find_by_user_id(user_id) {
        Some(u) => u,
        None => {
            return Err(GetOneError::NotFound(user_id.to_owned()));
        },
    };
    Ok(
        GetUserResponse {
            user_id: Some(user_id.to_owned()),
            nickname: clone_string(&user.nickname),
            comment: match &user.comment {
                Some(c) => Some(clone_string(c)),
                None => None,
            },
        },
    )
}

/// Updates the fields of `user_id`'s record that the payload carries, after
/// validating each: a present field replaces the stored one, an absent field
/// leaves the stored value exactly as it was. The response repeats what is
/// now stored, without the identifier.
pub fn update_user(store: &mut UserStore, user_id: &str, update: &UpdateUserDto) -> (r: Result<
    GetUserResponse,
    UpdateError,
>)
    requires
        old(store).wf(),
    ensures
        final(store).wf(),
        r is Err ==> final(store)@ == old(store)@,
        r matches Err(UpdateError::Validation { field, reason }) ==> (if update.comment
            matches Some(s) && !crate::validate::valid_comment(s@) {
            field@ == "comment"@ && reason@ == "must be less or equal to 30"@
        } else {
            (update.nickname matches Some(s) && !crate::validate::valid_nickname(s@)) && field@
                == "nickname"@ && reason@ == "must be less or equal to 20"@
        }),
        (update.comment matches Some(s) ==> crate::validate::valid_comment(s@)) && (update.nickname
            matches Some(s) ==> crate::validate::valid_nickname(s@)) ==> ((r matches Err(
            UpdateError::NotFound(x),
        ) && x@ == user_id@) <==> lookup(old(store)@, user_id@) is None),
        (update.comment matches Some(s) ==> crate::validate::valid_comment(s@)) && (update.nickname
            matches Some(s) ==> crate::validate::valid_nickname(s@)) && lookup(
            old(store)@,
            user_id@,
        ) is Some ==> r is Ok,
        ((update.comment matches Some(s) && !crate::validate::valid_comment(s@)) || (
        update.nickname matches Some(s) && !crate::validate::valid_nickname(s@))) ==> (r
            matches Err(e) && e matches UpdateError::Validation { field, reason }),
        r matches Ok(resp) ==> (lookup(old(store)@, user_id@) matches Some(prev) && {
            &&& resp.user_id is None
            &&& (match update.nickname {
                Some(nn) => resp.nickname@ == nn@,
                None => resp.nickname@ == prev.nickname,
            })
            &&& (match update.comment {
                Some(c) => (resp.comment matches Some(rc) && rc@ == c@),
                None => (match resp.comment {
                    Some(rc) => prev.comment == Some(rc@),
                    None => prev.comment is None,
                }),
            })
            &&& lookup(final(store)@, user_id@) matches Some(now) && {
                &&& now.id == prev.id
                &&& now.user_id == prev.user_id
                &&& now.password == prev.password
                &&& now.nickname == (match update.nickname {
                    Some(nn) => nn@,
                    None => prev.nickname,
                })
                &&& now.comment == (match update.comment {
                    Some(c) => Some(c@),
                    None => prev.comment,
                })
            }
            &&& forall|other: Seq<char>|
                other != user_id@ ==> lookup(final(store)@, other) == lookup(old(store)@, other)
        }),
{
    let valid = match ValidUpdate::try_from(update) {
        Ok(v) => v,
        Err(e) => {
            return Err(e);
        },
    };
    let updated = match store.update_fields(user_id, valid.nickname.as_ref(), valid.comment.as_ref()) {
        Some(u) => u,
        None => {
            return Err(UpdateError::NotFound(user_id.to_owned()));
        },
    };
    Ok(
        GetUserResponse {
            user_id: None,
            nickname: clone_string(&updated.nickname),
            comment: match &updated.comment {
                Some(c) => Some(clone_string(c)),
                None => None,
            },
        },
    )
}

/// Why an account deletion failed.
#[derive(Debug, PartialEq, Eq)]
pub enum DeleteError {
    /// No record carries the requested identifier.
    NotFound(String),
}

/// Deletes `user_id`'s record and returns it; `NotFound` — with nothing
/// changed — exactly when the identifier is unknown. Every other record and
/// its lookup stay as they were.
pub fn delete(store: &mut UserStore, user_id: &BasicId) -> (r: Result<StoredUser, DeleteError>)
    requires
        old(store).wf(),
    ensures
        final(store).wf(),
        r is Err ==> final(store)@ == old(store)@,
        r is Err <==> lookup(old(store)@, user_id@) is None,
        r matches Err(e) ==> (e matches DeleteError::NotFound(x) && x@ == user_id@),
        r matches Ok(u) ==> (lookup(old(store)@, user_id@) == Some(u@) && {
            &&& lookup(final(store)@, user_id@) is None
            &&& final(store)@.len() + 1 == old(store)@.len()
            &&& forall|other: Seq<char>|
                other != user_id@ ==> lookup(final(store)@, other) == lookup(old(store)@, other)
        }),
{
    match store.delete(user_id.as_str()) {
        Some(u) => Ok(u),
        None => Err(DeleteError::NotFound(user_id.as_str().to_owned())),
    }
}

} // verus!

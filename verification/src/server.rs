//! The decisions the HTTP server makes around its storage: who may do
//! what, how identifiers are scoped per user, how tokens are taken from
//! headers, and which status each outcome is answered with.
use vstd::prelude::*;
use crate::json::{object_get, JsonValue};
use crate::status::{StatusConfig, ThresholdError};
use crate::text::{
    chars_of, has_prefix, owned, push_chars, push_str, str_equal, str_starts_with,
};
use crate::time::{Timestamp, MIN_SECONDS};

verus! {

/// The HTTP statuses the server answers with.
#[derive(Clone, Copy, Debug, PartialEq, Eq, Structural)]
pub enum Status {
    Success,
    Created,
    BadRequest,
    Unauthorized,
    Forbidden,
    NotFound,
    Conflict,
    InternalServerError,
}

impl Status {
    /// The numeric code of the status.
    pub open spec fn spec_code(self) -> u16 {
        match self {
            Status::Success => 200,
            Status::Created => 201,
            Status::BadRequest => 400,
            Status::Unauthorized => 401,
            Status::Forbidden => 403,
            Status::NotFound => 404,
            Status::Conflict => 409,
            Status::InternalServerError => 500,
        }
    }

    /// The numeric code of the status.
    pub fn code(&self) -> (r: u16)
        ensures
            r == self.spec_code(),
    {
        match self {
            Status::Success => 200,
            Status::Created => 201,
            Status::BadRequest => 400,
            Status::Unauthorized => 401,
            Status::Forbidden => 403,
            Status::NotFound => 404,
            Status::Conflict => 409,
            Status::InternalServerError => 500,
        }
    }
}

/// The role of an account.
#[derive(Clone, Copy, Debug, PartialEq, Eq, Structural)]
pub enum UserRole {
    Root,
    User,
}

impl UserRole {
    /// The stored name of the role.
    pub open spec fn spec_as_str(self) -> Seq<char> {
        match self {
            UserRole::Root => "root"@,
            UserRole::User => "user"@,
        }
    }

    /// The stored name of the role: `root` or `user`.
    pub fn as_str(&self) -> (r: &'static str)
        ensures
            r@ == self.spec_as_str(),
    {
        match self {
            UserRole::Root => "root",
            UserRole::User => "user",
        }
    }

    /// The role named by an already-lowercased name.
    pub open spec fn spec_from_lowercase(lower: Seq<char>) -> Option<UserRole> {
        if lower == "root"@ {
            Some(UserRole::Root)
        } else if lower == "user"@ {
            Some(UserRole::User)
        } else {
            None
        }
    }

    /// The role named by an already-lowercased name.
    pub fn from_lowercase(lower: &str) -> (r: Option<UserRole>)
        ensures
            r == Self::spec_from_lowercase(lower@),
    {
        if str_equal(lower, "root") {
            Some(UserRole::Root)
        } else if str_equal(lower, "user") {
            Some(UserRole::User)
        } else {
            None
        }
    }

    /// Parses a role name, ignoring case; an unknown name is refused with
    /// `Invalid user role: ` and the name.
    pub fn from_str(s: &str) -> (r: Result<UserRole, String>)
        ensures
            match Self::spec_from_lowercase(crate::text::lowercase(s@)) {
                Some(role) => r == Ok::<UserRole, String>(role),
                None => r matches Err(e) && e@ == "Invalid user role: "@ + s@,
            },
            s@ == UserRole::Root.spec_as_str() ==> r == Ok::<UserRole, String>(UserRole::Root),
            s@ == UserRole::User.spec_as_str() ==> r == Ok::<UserRole, String>(UserRole::User),
    {
        proof {
            reveal_strlit("root");
            reveal_strlit("user");
            assert(UserRole::User.spec_as_str()[0] != UserRole::Root.spec_as_str()[0]);
            if s@ == UserRole::Root.spec_as_str() || s@ == UserRole::User.spec_as_str() {
                assert forall|i: int| 0 <= i < s@.len() implies 'a' <= #[trigger] s@[i] <= 'z' by {
                    if s@ == UserRole::Root.spec_as_str() {
                        assert(s@ =~= seq!['r', 'o', 'o', 't']);
                    } else {
                        assert(s@ =~= seq!['u', 's', 'e', 'r']);
                    }
                    assert(i == 0 || i == 1 || i == 2 || i == 3);
                }
            }
        }
        let lower = crate::text::to_lowercase(s);
        match Self::from_lowercase(lower.as_str()) {
            Some(role) => Ok(role),
            None => {
                let mut e = owned("Invalid user role: ");
                push_str(&mut e, s);
                Err(e)
            },
        }
    }
}

/// The characters of an optional string slice.
pub open spec fn opt_text(s: Option<&str>) -> Option<Seq<char>> {
    match s {
        Some(t) => Some(t@),
        None => None,
    }
}

/// A new account is root exactly when both the server and the request
/// carry a root password and the two are equal.
pub open spec fn spec_registration_role(rootpass: Option<Seq<char>>, server_root_pass: Option<Seq<char>>) -> UserRole {
    match (rootpass, server_root_pass) {
        (Some(a), Some(b)) => if a == b { UserRole::Root } else { UserRole::User },
        _ => UserRole::User,
    }
}

/// The role a new account receives at registration.
pub fn registration_role(rootpass: Option<&str>, server_root_pass: Option<&str>) -> (r: UserRole)
    ensures
        r == spec_registration_role(opt_text(rootpass), opt_text(server_root_pass)),
{
    match (rootpass, server_root_pass) {
        (Some(a), Some(b)) => if str_equal(a, b) {
            UserRole::Root
        } else {
            UserRole::User
        },
        _ => UserRole::User,
    }
}

/// The token in an `Authorization` header: what follows `Bearer `.
pub open spec fn spec_bearer_token(header: Seq<char>) -> Option<Seq<char>> {
    if has_prefix(header, "Bearer "@) {
        Some(header.subrange(7, header.len() as int))
    } else {
        None
    }
}

/// Takes the token out of an `Authorization: Bearer <token>` header.
pub fn bearer_token(header: &str) -> (r: Option<String>)
    ensures
        match r {
            Some(t) => spec_bearer_token(header@) == Some(t@),
            None => spec_bearer_token(header@) is None,
        },
{
    if str_starts_with(header, "Bearer ") {
        proof {
            reveal_strlit("Bearer ");
        }
        let c = chars_of(header);
        let mut t = String::new();
        let mut i: usize = 7;
        while i < c.len()
            invariant
                7 <= i <= c@.len(),
                t@ == c@.subrange(7, i as int),
            decreases c@.len() - i,
        {
            crate::text::push_char(&mut t, c[i]);
            i = i + 1;
        }
        Some(t)
    } else {
        None
    }
}

/// The identifier a device is stored under: the user's name, `:`, and the
/// device's own identifier, so that each user's devices are kept apart.
pub open spec fn spec_scoped_device_id(username: Seq<char>, device_id: Seq<char>) -> Seq<char> {
    username + ":"@ + device_id
}

/// The identifier a device is stored under for a user.
pub fn scoped_device_id(username: &str, device_id: &str) -> (r: String)
    ensures
        r@ == spec_scoped_device_id(username@, device_id@),
{
    let mut s = owned(username);
    push_str(&mut s, ":");
    push_str(&mut s, device_id);
    s
}

/// The pattern that selects a user's stored devices: the user's name, `:`
/// and `%`.
pub fn user_device_pattern(username: &str) -> (r: String)
    ensures
        r@ == username@ + ":%"@,
{
    let mut s = owned(username);
    push_str(&mut s, ":%");
    s
}

/// The identifier shown to a user for a stored device: the stored
/// identifier without the user's `name:` prefix.
pub open spec fn spec_display_device_id(username: Seq<char>, stored: Seq<char>) -> Seq<char> {
    stored.subrange(username.len() + 1int, stored.len() as int)
}

/// Removes the user's `name:` prefix from a stored device identifier.
pub fn display_device_id(username: &str, stored: &str) -> (r: String)
    requires
        stored@.len() >= username@.len() + 1,
    ensures
        r@ == spec_display_device_id(username@, stored@),
{
    let u = chars_of(username);
    let s = chars_of(stored);
    let mut out = String::new();
    let n = s.len();
    let m = u.len();
    assert(m < n);
    let mut i: usize = m + 1;
    while i < s.len()
        invariant
            u@.len() + 1 <= i <= s@.len(),
            s@ == stored@,
            u@ == username@,
            out@ == s@.subrange(u@.len() + 1int, i as int),
        decreases s@.len() - i,
    {
        crate::text::push_char(&mut out, s[i]);
        i = i + 1;
    }
    out
}

/// Showing a stored identifier undoes scoping it: the user gets back the
/// identifier they sent.
pub proof fn display_undoes_scoping(username: Seq<char>, device_id: Seq<char>)
    ensures
        spec_display_device_id(username, spec_scoped_device_id(username, device_id)) =~= device_id,
{
    assert((":"@).len() == 1) by {
        reveal_strlit(":");
    }
}

/// Scoping keeps different users' devices apart: equal stored identifiers
/// come from equal device identifiers of equal users, for user names
/// without `:`.
pub proof fn scoping_is_injective(u1: Seq<char>, d1: Seq<char>, u2: Seq<char>, d2: Seq<char>)
    requires
        !u1.contains(':'),
        !u2.contains(':'),
        spec_scoped_device_id(u1, d1) == spec_scoped_device_id(u2, d2),
    ensures
        u1 == u2,
        d1 == d2,
{
    reveal_strlit(":");
    let s1 = spec_scoped_device_id(u1, d1);
    let s2 = spec_scoped_device_id(u2, d2);
    if u1.len() < u2.len() {
        assert(s1[u1.len() as int] == ':');
        assert(s2[u1.len() as int] == u2[u1.len() as int]);
        assert(u2.contains(':'));
    } else if u2.len() < u1.len() {
        assert(s2[u2.len() as int] == ':');
        assert(s1[u2.len() as int] == u1[u2.len() as int]);
        assert(u1.contains(':'));
    } else {
        assert forall|i: int| 0 <= i < u1.len() implies u1[i] == u2[i] by {
            assert(s1[i] == s2[i]);
        }
        assert(u1 =~= u2);
        assert(s1.len() == s2.len());
        assert(d1.len() == d2.len());
        assert forall|i: int| 0 <= i < d1.len() implies d1[i] == d2[i] by {
            assert(s1[u1.len() + 1 + i] == d1[i]);
            assert(s2[u2.len() + 1 + i] == d2[i]);
        }
        assert(d1 =~= d2);
    }
}

/// The length in seconds of a history window: `1h`, `1d`, `1w` or `1m`
/// (thirty days); other names are refused.
pub open spec fn spec_time_range_seconds(range: Seq<char>) -> Option<i64> {
    if range == "1h"@ {
        Some(3600)
    } else if range == "1d"@ {
        Some(86400)
    } else if range == "1w"@ {
        Some(604800)
    } else if range == "1m"@ {
        Some(2592000)
    } else {
        None
    }
}

/// The length in seconds of a history window.
pub fn time_range_seconds(range: &str) -> (r: Option<i64>)
    ensures
        r == spec_time_range_seconds(range@),
{
    if str_equal(range, "1h") {
        Some(3600)
    } else if str_equal(range, "1d") {
        Some(86400)
    } else if str_equal(range, "1w") {
        Some(604800)
    } else if str_equal(range, "1m") {
        Some(2592000)
    } else {
        None
    }
}

/// The start of a history window ending at `now`; an unknown window is a
/// bad request.  The window must not reach before the earliest
/// representable instant.
pub fn time_range_start(now: &Timestamp, range: &str) -> (r: Result<Timestamp, Status>)
    requires
        now.wf(),
        match spec_time_range_seconds(range@) {
            Some(len) => crate::time::MIN_SECONDS <= now.secs - len,
            None => true,
        },
    ensures
        match spec_time_range_seconds(range@) {
            Some(len) => r == Ok::<Timestamp, Status>(now.spec_shift(-len)),
            None => r == Err::<Timestamp, Status>(Status::BadRequest),
        },
        r matches Ok(t) ==> t.wf(),
{
    match time_range_seconds(range) {
        Some(len) => Ok(now.shift_seconds(-len)),
        None => Err(Status::BadRequest),
    }
}

/// The history window a request names, `1d` when it names none.
pub fn requested_time_range(param: Option<&str>) -> (r: &str)
    ensures
        match param {
            Some(p) => r@ == p@,
            None => r@ == "1d"@,
        },
{
    match param {
        Some(p) => p,
        None => "1d",
    }
}

/// Only root accounts may administer other accounts: a caller whose role is
/// `root` may proceed; any other role, or no account, is forbidden.
pub open spec fn spec_admin_check(caller_role: Option<Seq<char>>) -> Result<(), Status> {
    match caller_role {
        Some(role) => if role == "root"@ { Ok(()) } else { Err(Status::Forbidden) },
        None => Err(Status::Forbidden),
    }
}

/// Decides whether a caller, by the role stored for them, may administer
/// accounts.
pub fn admin_check(caller_role: Option<&str>) -> (r: Result<(), Status>)
    ensures
        r == spec_admin_check(opt_text(caller_role)),
{
    match caller_role {
        Some(role) => if str_equal(role, "root") {
            Ok(())
        } else {
            Err(Status::Forbidden)
        },
        None => Err(Status::Forbidden),
    }
}

/// The outcome of deleting an account once the caller has been allowed:
/// nothing deleted is not found.
pub fn account_deletion_outcome(deleted: bool) -> (r: Result<(), Status>)
    ensures
        deleted ==> r == Ok::<(), Status>(()),
        !deleted ==> r == Err::<(), Status>(Status::NotFound),
{
    if deleted {
        Ok(())
    } else {
        Err(Status::NotFound)
    }
}

/// The status and message answering a device deletion, from what the store
/// reported.
pub open spec fn spec_device_deletion_reply(outcome: Result<bool, Status>) -> (Status, Seq<char>) {
    match outcome {
        Ok(true) => (Status::Success, "device deleted"@),
        Ok(false) => (Status::NotFound, "device not found"@),
        Err(code) => (code, "failed to delete device"@),
    }
}

/// The status and message answering a device deletion.
pub fn device_deletion_reply(outcome: Result<bool, Status>) -> (r: (Status, String))
    ensures
        (r.0, r.1@) == spec_device_deletion_reply(outcome),
{
    match outcome {
        Ok(true) => (Status::Success, owned("device deleted")),
        Ok(false) => (Status::NotFound, owned("device not found")),
        Err(code) => (code, owned("failed to delete device")),
    }
}

/// The status and message answering a logout, from the `Authorization`
/// header and, when it carries a token, what revoking it reported.
pub open spec fn spec_logout_reply(has_token: bool, revoked: Result<bool, Status>) -> (Status, Seq<char>) {
    if !has_token {
        (Status::BadRequest, "invalid token format"@)
    } else {
        match revoked {
            Ok(true) => (Status::Success, "logged out"@),
            Ok(false) => (Status::BadRequest, "logout failed, token not found"@),
            Err(code) => (code, "logout failed"@),
        }
    }
}

/// The status and message answering a logout.
pub fn logout_reply(has_token: bool, revoked: Result<bool, Status>) -> (r: (Status, String))
    ensures
        (r.0, r.1@) == spec_logout_reply(has_token, revoked),
{
    if !has_token {
        (Status::BadRequest, owned("invalid token format"))
    } else {
        match revoked {
            Ok(true) => (Status::Success, owned("logged out")),
            Ok(false) => (Status::BadRequest, owned("logout failed, token not found")),
            Err(code) => (code, owned("logout failed")),
        }
    }
}

/// The user a token belongs to, or refusal: an unknown token and a store
/// failure are both unauthorized.
pub fn token_owner(lookup: Result<Option<String>, Status>) -> (r: Result<String, Status>)
    ensures
        match lookup {
            Ok(Some(u)) => r == Ok::<String, Status>(u),
            _ => r == Err::<String, Status>(Status::Unauthorized),
        },
{
    match lookup {
        Ok(Some(u)) => Ok(u),
        _ => Err(Status::Unauthorized),
    }
}

/// Whether a stored role name is `root`.
pub fn is_root_role(role: &str) -> (r: bool)
    ensures
        r == (role@ == "root"@),
{
    str_equal(role, "root")
}

/// The thresholds a user works with: their stored ones when the store has
/// them, the defaults when it has none or fails.
pub fn config_or_default(stored: Result<Option<StatusConfig>, Status>) -> (r: StatusConfig)
    ensures
        match stored {
            Ok(Some(c)) => r == c,
            _ => r == StatusConfig::spec_default(),
        },
{
    match stored {
        Ok(Some(c)) => c,
        _ => StatusConfig::default_thresholds(),
    }
}

/// Checks new thresholds before they are stored or applied: they must be
/// strictly increasing, or the request is bad, with the message naming the
/// broken comparison.
pub fn check_threshold_update(config: &StatusConfig) -> (r: Result<(), (Status, String)>)
    ensures
        r is Ok <==> config.spec_valid(),
        r matches Err((s, _)) ==> s == Status::BadRequest,
{
    match config.validate() {
        Ok(()) => Ok(()),
        Err(e) => Err((Status::BadRequest, e.message())),
    }
}

/// The topic a stored data payload names: its `topic` field, which must be
/// a string, or the request is bad.
pub fn payload_topic(data: &JsonValue) -> (r: Result<String, Status>)
    ensures
        match data.spec_get("topic"@) {
            Some(JsonValue::String(t)) => r matches Ok(s) && s@ == t@,
            _ => r == Err::<String, Status>(Status::BadRequest),
        },
{
    match data.get("topic") {
        Some(JsonValue::String(t)) => Ok(t.clone()),
        _ => Err(Status::BadRequest),
    }
}

/// The kinds of data listed for a topic: `PULSE` first, since every topic
/// records pulses, then the kinds stored for it.
pub fn topic_data_kinds(stored: Vec<String>) -> (r: Vec<String>)
    ensures
        r@.len() == stored@.len() + 1,
        r@[0]@ == "PULSE"@,
        forall|i: int| 0 <= i < stored@.len() ==> r@[i + 1] == stored@[i],
{
    let mut out: Vec<String> = Vec::new();
    out.push(owned("PULSE"));
    let mut i: usize = 0;
    while i < stored.len()
        invariant
            i <= stored@.len(),
            out@.len() == i + 1,
            out@[0]@ == "PULSE"@,
            forall|k: int| 0 <= k < i ==> out@[k + 1] == stored@[k],
        decreases stored@.len() - i,
    {
        out.push(stored[i].clone());
        i = i + 1;
    }
    out
}

/// What happened at the latest step of a login.
#[derive(Debug)]
pub enum LoginEvent {
    /// The stored password hash of the account was looked up.
    HashLooked(Result<Option<String>, Status>),
    /// The password was checked against the hash.
    Verified(Result<bool, Status>),
    /// A session token was issued and stored.
    TokenIssued(Result<String, Status>),
}

/// What a login does next.
#[derive(Debug)]
pub enum LoginAction {
    /// Check the password against this stored hash.
    VerifyAgainst(String),
    /// Issue a session token for the account.
    IssueToken,
    /// Answer with the session token.
    ReplyToken(String),
    /// Answer with a status and an error message.
    ReplyError(Status, String),
}

/// The next step of a login: an unknown account, a store failure, a wrong
/// password or a failed check are all invalid credentials; a failure to
/// issue the token is reported with its status.
pub fn login_step(event: LoginEvent) -> (r: LoginAction)
    ensures
        match event {
            LoginEvent::HashLooked(Ok(Some(h))) => r matches LoginAction::VerifyAgainst(x) && x == h,
            LoginEvent::Verified(Ok(true)) => r is IssueToken,
            LoginEvent::TokenIssued(Ok(t)) => r matches LoginAction::ReplyToken(x) && x == t,
            LoginEvent::TokenIssued(Err(code)) => r matches LoginAction::ReplyError(s, m) && s == code
                && m@ == "login failed"@,
            _ => r matches LoginAction::ReplyError(s, m) && s == Status::Unauthorized && m@
                == "invalid credentials"@,
        },
{
    match event {
        LoginEvent::HashLooked(Ok(Some(h))) => LoginAction::VerifyAgainst(h),
        LoginEvent::Verified(Ok(true)) => LoginAction::IssueToken,
        LoginEvent::TokenIssued(Ok(t)) => LoginAction::ReplyToken(t),
        LoginEvent::TokenIssued(Err(code)) => LoginAction::ReplyError(code, owned("login failed")),
        _ => LoginAction::ReplyError(Status::Unauthorized, owned("invalid credentials")),
    }
}

/// The status and message answering a registration: a failed hash and a
/// failed creation report their status.
pub fn registration_reply(hashed: Result<(), Status>, created: Result<(), Status>) -> (r: (Status, String))
    ensures
        match (hashed, created) {
            (Err(code), _) => r.0 == code && r.1@ == "password hashing failed"@,
            (Ok(()), Ok(())) => r.0 == Status::Created && r.1@ == "user created successfully"@,
            (Ok(()), Err(code)) => r.0 == code && r.1@ == "user creation failed"@,
        },
{
    match (hashed, created) {
        (Err(code), _) => (code, owned("password hashing failed")),
        (Ok(()), Ok(())) => (Status::Created, owned("user created successfully")),
        (Ok(()), Err(code)) => (code, owned("user creation failed")),
    }
}

/// Whether the caller is root, from their stored role, or the error to
/// answer with: a missing role and a store failure are server errors.
pub fn user_info_reply(role: Result<Option<String>, Status>) -> (r: Result<bool, (Status, String)>)
    ensures
        match role {
            Ok(Some(x)) => r == Ok::<bool, (Status, String)>(x@ == "root"@),
            Ok(None) => r matches Err((s, m)) && s == Status::InternalServerError && m@ == "user role not found"@,
            Err(_) => r matches Err((s, m)) && s == Status::InternalServerError && m@ == "database error"@,
        },
{
    match role {
        Ok(Some(x)) => Ok(str_equal(x.as_str(), "root")),
        Ok(None) => Err((Status::InternalServerError, owned("user role not found"))),
        Err(_) => Err((Status::InternalServerError, owned("database error"))),
    }
}

/// The status and message answering a pulse, by whether it carried data
/// and what storing it reported.
pub fn pulse_reply(has_data: bool, stored: Result<(), Status>) -> (r: (Status, String))
    ensures
        match stored {
            Ok(()) => r.0 == Status::Success && r.1@ == if has_data {
                "pulse with data received"@
            } else {
                "ping pulse received"@
            },
            Err(code) => r.0 == code && r.1@ == if has_data {
                "pulse data storage failed"@
            } else {
                "ping pulse failed"@
            },
        },
{
    match stored {
        Ok(()) => (Status::Success, if has_data {
            owned("pulse with data received")
        } else {
            owned("ping pulse received")
        }),
        Err(code) => (code, if has_data {
            owned("pulse data storage failed")
        } else {
            owned("ping pulse failed")
        }),
    }
}

/// The status and message answering a change of a user's thresholds, once
/// they were found in order, by what storing them reported.
pub fn user_config_reply(stored: Result<(), Status>) -> (r: (Status, String))
    ensures
        stored is Ok ==> r.0 == Status::Success && r.1@ == "User configuration updated successfully"@,
        stored is Err ==> r.0 == Status::InternalServerError && r.1@ == "Failed to update user configuration"@,
{
    match stored {
        Ok(()) => (Status::Success, owned("User configuration updated successfully")),
        Err(_) => (Status::InternalServerError, owned("Failed to update user configuration")),
    }
}

} // verus!

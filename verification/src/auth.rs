//! Dashboard authentication: the PIN rules, PIN hashing with bcrypt, the API
//! key comparison, bearer-token extraction and the sign-in decisions.

use vstd::prelude::*;
use crate::text::{owned, split_char, starts_with, str_starts_with, str_trim, trim};

verus! {

/// Declares bcrypt's error type so results carrying it can pass through.
#[verifier::external_type_specification]
#[verifier::external_body]
pub struct ExBcryptError(bcrypt::BcryptError);

/// What `bcrypt::verify(pin, hash)` yields: `Some(b)` when the hash is well
/// formed and `b` tells whether the PIN matches it, `None` when bcrypt
/// rejects the hash.
pub uninterp spec fn bcrypt_verify_outcome(pin: Seq<char>, hash: Seq<char>) -> Option<bool>;

/// How many non-empty pieces `pieces` holds.
pub open spec fn nonempty_count(pieces: Seq<Seq<char>>) -> nat
    decreases pieces.len(),
{
    if pieces.len() == 0 {
        0
    } else {
        nonempty_count(pieces.drop_last()) + if pieces.last().len() > 0 {
            1nat
        } else {
            0nat
        }
    }
}

/// The number of non-empty `$`-separated parts of a stored hash (a bcrypt
/// hash has three: version, cost, salt and hash).
pub open spec fn dollar_parts(hash: Seq<char>) -> nat {
    nonempty_count(split_char(hash, '$'))
}

/// Calls `bcrypt::verify`. Claimed: the call is a function of the PIN and the
/// hash alone, named `bcrypt_verify_outcome`, and a hash that does not split
/// into three non-empty `$`-separated parts is refused (`split_hash`).
#[verifier::external_body]
fn bcrypt_verify(pin: &str, hash: &str) -> (r: Result<bool, bcrypt::BcryptError>)
    ensures
        match bcrypt_verify_outcome(pin@, hash@) {
            Some(b) => r matches Ok(x) && x == b,
            None => r is Err,
        },
        dollar_parts(hash@) != 3 ==> r is Err,
{
    bcrypt::verify(pin, hash)
}

/// Calls `bcrypt::hash` with the default cost. Claimed: a hash it returns
/// verifies the PIN it was made from. The salt is random, so nothing else is
/// said of the hash, and the call may fail (when the OS gives no randomness).
#[verifier::external_body]
fn bcrypt_hash(pin: &str) -> (r: Result<String, bcrypt::BcryptError>)
    ensures
        r matches Ok(h) ==> bcrypt_verify_outcome(pin@, h@) == Some(true),
{
    bcrypt::hash(pin, bcrypt::DEFAULT_COST)
}

/// Whether `c` is an ASCII digit.
pub open spec fn is_ascii_digit(c: char) -> bool {
    '0' <= c && c <= '9'
}

/// A PIN is 4-8 ASCII digits.
pub open spec fn valid_pin_spec(pin: Seq<char>) -> bool {
    4 <= pin.len() <= 8 && forall|i: int| 0 <= i < pin.len() ==> is_ascii_digit(#[trigger] pin[i])
}

/// A PIN is 4-8 digits.
pub fn valid_pin(pin: &str) -> (r: bool)
    ensures
        r == valid_pin_spec(pin@),
{
    let n = pin.unicode_len();
    if n < 4 || n > 8 {
        return false;
    }
    let mut i: usize = 0;
    while i < n
        invariant
            n == pin@.len(),
            i <= n,
            forall|j: int| 0 <= j < i ==> is_ascii_digit(#[trigger] pin@[j]),
        decreases n - i,
    {
        let c = pin.get_char(i);
        if !('0' <= c && c <= '9') {
            assert(!is_ascii_digit(pin@[i as int]));
            return false;
        }
        i = i + 1;
    }
    true
}

/// Law: the PINs accepted are exactly the strings of four to eight chars,
/// each one of `0`, `1`, ..., `9`; any digit may stand at any place.
pub proof fn pin_is_four_to_eight_digits(pin: Seq<char>)
    ensures
        valid_pin_spec(pin) <==> (4 <= pin.len() && pin.len() <= 8 && forall|i: int|
            0 <= i < pin.len() ==> '0' <= #[trigger] pin[i] && pin[i] <= '9'),
{
}

/// Law: putting any digit in place of one char of a valid PIN keeps it valid.
pub proof fn pin_digit_swap_stays_valid(pin: Seq<char>, i: int, d: char)
    requires
        valid_pin_spec(pin),
        0 <= i < pin.len(),
        '0' <= d && d <= '9',
    ensures
        valid_pin_spec(pin.update(i, d)),
{
    let q = pin.update(i, d);
    assert forall|j: int| 0 <= j < q.len() implies '0' <= #[trigger] q[j] && q[j] <= '9' by {
        if j != i {
            assert(q[j] == pin[j]);
        }
    }
}

/// Hashing a PIN failed.
#[derive(Debug)]
pub struct PinHashError;

impl PinHashError {
    /// `failed to hash PIN`.
    pub fn message(&self) -> (r: &'static str)
        ensures
            r@ == "failed to hash PIN"@,
    {
        "failed to hash PIN"
    }
}

/// Hash a PIN with bcrypt. A returned hash verifies the PIN.
pub fn hash_pin(pin: &str) -> (r: Result<String, PinHashError>)
    ensures
        r matches Ok(h) ==> bcrypt_verify_outcome(pin@, h@) == Some(true),
{
    match bcrypt_hash(pin) {
        Ok(h) => Ok(h),
        Err(_) => Err(PinHashError),
    }
}

/// Verify a PIN against a stored bcrypt hash; a malformed hash never matches.
pub fn verify_pin(pin: &str, hash: &str) -> (r: bool)
    ensures
        r == (bcrypt_verify_outcome(pin@, hash@) == Some(true)),
        dollar_parts(hash@) != 3 ==> !r,
{
    match bcrypt_verify(pin, hash) {
        Ok(b) => b,
        Err(_) => false,
    }
}

/// Length-checked constant-time byte comparison (no early exit on the first
/// differing byte, to avoid timing leaks on the key).
pub fn constant_time_eq(a: &[u8], b: &[u8]) -> (r: bool)
    ensures
        r == (a@ == b@),
{
    if a.len() != b.len() {
        return false;
    }
    let n = a.len();
    let mut diff: u8 = 0;
    let mut i: usize = 0;
    while i < n
        invariant
            n == a@.len(),
            n == b@.len(),
            i <= n,
            (diff == 0) == (forall|j: int| 0 <= j < i ==> a@[j] == b@[j]),
        decreases n - i,
    {
        let x = a[i];
        let y = b[i];
        let old_diff = diff;
        diff = diff | (x ^ y);
        assert((old_diff | (x ^ y)) == 0 <==> (old_diff == 0 && x == y)) by (bit_vector);
        proof {
            if diff == 0 {
                assert forall|j: int| 0 <= j < i + 1 implies a@[j] == b@[j] by {
                    if j < i {
                    }
                }
            }
        }
        i = i + 1;
    }
    proof {
        if diff == 0 {
            assert(a@ =~= b@);
        }
    }
    diff == 0
}

/// The claims of a dashboard token.
#[derive(Clone, Debug)]
pub struct Claims {
    /// Subject: who the token was issued to.
    pub sub: String,
    /// Role for access control.
    pub role: String,
    /// Issued-at (unix seconds).
    pub iat: usize,
    /// Expiry (unix seconds).
    pub exp: usize,
}

impl Claims {
    /// The claims of a token issued at `now` that lives `ttl_secs` seconds.
    pub fn issued(sub: &str, role: &str, now: i64, ttl_secs: i64) -> (c: Claims)
        requires
            i64::MIN <= now + ttl_secs <= i64::MAX,
        ensures
            c.sub@ == sub@,
            c.role@ == role@,
            c.iat == now as usize,
            c.exp == (now + ttl_secs) as usize,
    {
        Claims { sub: owned(sub), role: owned(role), iat: now as usize, exp: (now + ttl_secs) as usize }
    }
}

/// A caller that presented a valid bearer token.
#[derive(Debug)]
pub struct AuthUser {
    pub claims: Claims,
}

/// The token in an `Authorization` header: what follows `Bearer `, trimmed.
pub open spec fn bearer_token_spec(header: Seq<char>) -> Option<Seq<char>> {
    if starts_with(header, "Bearer "@) {
        Some(trim(header.subrange(7, header.len() as int)))
    } else {
        None
    }
}

/// Extract the token from an `Authorization: Bearer <jwt>` header value.
pub fn bearer_token(header: &str) -> (r: Option<&str>)
    ensures
        match bearer_token_spec(header@) {
            Some(t) => r matches Some(x) && x@ == t,
            None => r is None,
        },
{
    if !str_starts_with(header, "Bearer ") {
        return None;
    }
    proof {
        reveal_strlit("Bearer ");
    }
    let n = header.unicode_len();
    let rest = header.substring_char(7, n);
    Some(str_trim(rest))
}

/// Why a request could not be authenticated.
#[derive(Clone, Copy, Debug, PartialEq, Eq, Structural)]
pub enum AuthRejection {
    Misconfigured,
    MissingHeader,
    NotBearer,
    InvalidToken,
}

impl AuthRejection {
    /// The 401 message for this rejection.
    pub fn message(&self) -> (r: &'static str)
        ensures
            r@ == match *self {
                AuthRejection::Misconfigured => "server misconfigured"@,
                AuthRejection::MissingHeader => "missing Authorization header"@,
                AuthRejection::NotBearer => "expected a Bearer token"@,
                AuthRejection::InvalidToken => "invalid or expired token"@,
            },
    {
        match self {
            AuthRejection::Misconfigured => "server misconfigured",
            AuthRejection::MissingHeader => "missing Authorization header",
            AuthRejection::NotBearer => "expected a Bearer token",
            AuthRejection::InvalidToken => "invalid or expired token",
        }
    }
}

// ── Tokens (HS256 JWTs) ─────────────────────────────────────────────────────

/// The HS256 JWT that jsonwebtoken's `encode` makes with the default header,
/// the secret as key, and a payload holding `sub`, `role`, `iat` and `exp`;
/// `None` when encoding fails.
pub uninterp spec fn hs256_token(secret: Seq<char>, sub: Seq<char>, role: Seq<char>, iat: nat, exp: nat) -> Option<
    Seq<char>,
>;

/// The claims `(sub, role, iat, exp)` of `token` when it is an HS256 JWT
/// correctly signed with `secret` whose payload holds string `sub` and
/// `role` and unsigned `iat` and `exp` (what jsonwebtoken's `decode` reads,
/// the clock aside); `None` otherwise.
pub uninterp spec fn hs256_claims(secret: Seq<char>, token: Seq<char>) -> Option<
    (Seq<char>, Seq<char>, nat, nat),
>;

/// Calls `jsonwebtoken::encode` with the default (HS256) header, the claims
/// as a JSON object and the secret as key. Claimed: the token is a function
/// of the secret and the claims, named `hs256_token`, and decoding it with
/// the same secret gives back the claims (the payload is their JSON object,
/// signed with that secret).
#[verifier::external_body]
fn jwt_encode(secret: &str, claims: &Claims) -> (r: Option<String>)
    ensures
        match hs256_token(secret@, claims.sub@, claims.role@, claims.iat as nat, claims.exp as nat) {
            Some(t) => r matches Some(x) && x@ == t,
            None => r is None,
        },
        r matches Some(x) ==> hs256_claims(secret@, x@) == Some(
            (claims.sub@, claims.role@, claims.iat as nat, claims.exp as nat),
        ),
{
    let mut m = serde_json::Map::new();
    m.insert("sub".to_string(), claims.sub.clone().into());
    m.insert("role".to_string(), claims.role.clone().into());
    m.insert("iat".to_string(), claims.iat.into());
    m.insert("exp".to_string(), claims.exp.into());
    let key = jsonwebtoken::EncodingKey::from_secret(secret.as_bytes());
    jsonwebtoken::encode(&jsonwebtoken::Header::default(), &m, &key).ok()
}

/// Calls `jsonwebtoken::decode` with HS256 validation (which also checks
/// `exp` against the current time) and reads the four claims. Claimed: what
/// it returns are the token's claims as `hs256_claims` names them, and a
/// token without such claims is refused. Whether an expired token is refused
/// depends on the clock, so it is not said.
#[verifier::external_body]
fn jwt_decode(secret: &str, token: &str) -> (r: Option<Claims>)
    ensures
        r matches Some(c) ==> hs256_claims(secret@, token@) == Some(
            (c.sub@, c.role@, c.iat as nat, c.exp as nat),
        ),
        hs256_claims(secret@, token@) is None ==> r is None,
{
    let key = jsonwebtoken::DecodingKey::from_secret(secret.as_bytes());
    let v = jsonwebtoken::Validation::new(jsonwebtoken::Algorithm::HS256);
    let m = jsonwebtoken::decode::<serde_json::Map<String, serde_json::Value>>(token, &key, &v).ok()?.claims;
    let s = |k: &str| m.get(k).and_then(|x| x.as_str()).map(str::to_string);
    let n = |k: &str| m.get(k).and_then(|x| x.as_u64()).and_then(|x| usize::try_from(x).ok());
    Some(Claims { sub: s("sub")?, role: s("role")?, iat: n("iat")?, exp: n("exp")? })
}

/// Issue a signed JWT for `sub` with `role`, issued at `now` and valid for
/// `ttl_secs` seconds. A token it returns carries exactly those claims.
pub fn issue_token(secret: &str, sub: &str, role: &str, now: i64, ttl_secs: i64) -> (r: Option<String>)
    requires
        i64::MIN <= now + ttl_secs <= i64::MAX,
    ensures
        match hs256_token(secret@, sub@, role@, (now as usize) as nat, ((now + ttl_secs) as usize) as nat) {
            Some(t) => r matches Some(x) && x@ == t,
            None => r is None,
        },
        r matches Some(x) ==> hs256_claims(secret@, x@) == Some(
            (sub@, role@, (now as usize) as nat, ((now + ttl_secs) as usize) as nat),
        ),
{
    let claims = Claims::issued(sub, role, now, ttl_secs);
    jwt_encode(secret, &claims)
}

/// Verify a JWT and return its claims (the signature, and expiry at the
/// current time). Claims it returns are the token's own.
pub fn verify_token(secret: &str, token: &str) -> (r: Option<Claims>)
    ensures
        r matches Some(c) ==> hs256_claims(secret@, token@) == Some(
            (c.sub@, c.role@, c.iat as nat, c.exp as nat),
        ),
        hs256_claims(secret@, token@) is None ==> r is None,
{
    jwt_decode(secret, token)
}

/// Authenticate a request from the token secret (absent when the server is
/// misconfigured) and its `Authorization` header (absent when missing or not
/// text): each refusal in the order the checks are made, and on success the
/// claims of the bearer token.
pub fn authenticate(secret: Option<&str>, header: Option<&str>) -> (r: Result<AuthUser, AuthRejection>)
    ensures
        match (secret, header) {
            (None, _) => r == Err::<AuthUser, AuthRejection>(AuthRejection::Misconfigured),
            (Some(_), None) => r == Err::<AuthUser, AuthRejection>(AuthRejection::MissingHeader),
            (Some(k), Some(h)) => match bearer_token_spec(h@) {
                None => r == Err::<AuthUser, AuthRejection>(AuthRejection::NotBearer),
                Some(t) => {
                    &&& hs256_claims(k@, t) is None ==> r == Err::<AuthUser, AuthRejection>(
                        AuthRejection::InvalidToken,
                    )
                    &&& r matches Err(e) ==> e == AuthRejection::InvalidToken
                    &&& r matches Ok(u) ==> hs256_claims(k@, t) == Some(
                        (u.claims.sub@, u.claims.role@, u.claims.iat as nat, u.claims.exp as nat),
                    )
                },
            },
        },
{
    let secret = match secret {
        Some(k) => k,
        None => return Err(AuthRejection::Misconfigured),
    };
    let header = match header {
        Some(h) => h,
        None => return Err(AuthRejection::MissingHeader),
    };
    let token = match bearer_token(header) {
        Some(t) => t,
        None => return Err(AuthRejection::NotBearer),
    };
    match verify_token(secret, token) {
        Some(claims) => Ok(AuthUser { claims }),
        None => Err(AuthRejection::InvalidToken),
    }
}

/// The body of a sign-in request.
#[derive(Debug)]
pub struct LoginRequest {
    /// Dashboard PIN.
    pub pin: Option<String>,
    /// Optional API key (for scripts/clients).
    pub api_key: Option<String>,
}

/// The body of a PIN change.
#[derive(Debug)]
pub struct ChangePinRequest {
    pub current_pin: String,
    pub new_pin: String,
}

/// The reply to a successful sign-in or refresh.
#[derive(Debug)]
pub struct TokenResponse {
    pub token: String,
    pub token_type: &'static str,
    pub expires_in: i64,
    /// True when the PIN is still the default and must be changed.
    pub must_change_pin: bool,
}

impl TokenResponse {
    /// A bearer-token reply.
    pub fn bearer(token: String, expires_in: i64, must_change_pin: bool) -> (r: TokenResponse)
        ensures
            r.token == token,
            r.token_type@ == "Bearer"@,
            r.expires_in == expires_in,
            r.must_change_pin == must_change_pin,
    {
        TokenResponse { token, token_type: "Bearer", expires_in, must_change_pin }
    }
}

/// The first decision of a sign-in, before any stored state is read.
#[derive(Debug)]
pub enum LoginStart {
    /// The API key matched: issue a token for subject `api`.
    ApiKey,
    /// No usable key and no PIN: 400 `pin_required`.
    PinRequired,
    /// Check this PIN against the stored hash.
    CheckPin(String),
}

/// The key path applies: a key was sent, one is configured, and they match.
pub open spec fn api_key_accepted(configured: Seq<char>, sent: Option<String>) -> bool {
    match sent {
        Some(k) => configured.len() > 0 && crate::text::str_bytes(k@) == crate::text::str_bytes(
            configured,
        ),
        None => false,
    }
}

/// Decide how to treat a sign-in request: the API key first (when one is
/// configured), then the PIN.
pub fn login_start(configured_key: &str, req: &LoginRequest) -> (r: LoginStart)
    ensures
        api_key_accepted(configured_key@, req.api_key) ==> r is ApiKey,
        !api_key_accepted(configured_key@, req.api_key) ==> match req.pin {
            Some(p) => r matches LoginStart::CheckPin(q) && q@ == p@,
            None => r is PinRequired,
        },
{
    match &req.api_key {
        Some(k) => {
            if configured_key.unicode_len() > 0 && constant_time_eq(
                k.as_str().as_bytes(),
                configured_key.as_bytes(),
            ) {
                return LoginStart::ApiKey;
            }
        },
        None => {},
    }
    match &req.pin {
        Some(p) => LoginStart::CheckPin(p.clone()),
        None => LoginStart::PinRequired,
    }
}

/// How a PIN check ends.
#[derive(Clone, Copy, Debug, PartialEq, Eq, Structural)]
pub enum PinCheck {
    /// No PIN has been set yet (503 `pin_uninitialized`).
    Uninitialized,
    /// Reading the stored hash failed (500 `db_error`).
    StoreError,
    /// The PIN does not match (401 `invalid_pin`).
    Invalid,
    /// The PIN matches.
    Accepted,
}

/// How a sign-in PIN fares against a stored hash.
pub open spec fn login_outcome(pin: Seq<char>, hash: Seq<char>) -> PinCheck {
    if bcrypt_verify_outcome(pin, hash) == Some(true) {
        PinCheck::Accepted
    } else {
        PinCheck::Invalid
    }
}

/// Check a sign-in PIN against what the store returned for the hash
/// (`Err` when the read failed, `Ok(None)` when no PIN is set).
pub fn check_login_pin(pin: &str, stored: &Result<Option<String>, ()>) -> (r: PinCheck)
    ensures
        r == match *stored {
            Err(_) => PinCheck::StoreError,
            Ok(None) => PinCheck::Uninitialized,
            Ok(Some(h)) => login_outcome(pin@, h@),
        },
{
    match stored {
        Err(_) => PinCheck::StoreError,
        Ok(None) => PinCheck::Uninitialized,
        Ok(Some(h)) => {
            if verify_pin(pin, h.as_str()) {
                PinCheck::Accepted
            } else {
                PinCheck::Invalid
            }
        },
    }
}

/// How a PIN change ends, before the new PIN is stored.
#[derive(Clone, Copy, Debug, PartialEq, Eq, Structural)]
pub enum PinChange {
    /// No PIN is stored, or it could not be read (503 `pin_uninitialized`).
    Uninitialized,
    /// The current PIN is wrong (401 `invalid_pin`).
    Invalid,
    /// The new PIN is not 4-8 digits (400 `weak_pin`).
    Weak,
    /// Store the new PIN.
    Store,
}

/// How a PIN change fares against a stored hash.
pub open spec fn change_outcome(current: Seq<char>, new_pin: Seq<char>, hash: Seq<char>) -> PinChange {
    if bcrypt_verify_outcome(current, hash) != Some(true) {
        PinChange::Invalid
    } else if !valid_pin_spec(new_pin) {
        PinChange::Weak
    } else {
        PinChange::Store
    }
}

/// Decide a PIN change: the current PIN must match the stored hash, then the
/// new PIN must be valid.
pub fn check_pin_change(req: &ChangePinRequest, stored: &Option<String>) -> (r: PinChange)
    ensures
        r == match *stored {
            None => PinChange::Uninitialized,
            Some(h) => change_outcome(req.current_pin@, req.new_pin@, h@),
        },
{
    match stored {
        None => PinChange::Uninitialized,
        Some(h) => {
            if !verify_pin(req.current_pin.as_str(), h.as_str()) {
                PinChange::Invalid
            } else if !valid_pin(req.new_pin.as_str()) {
                PinChange::Weak
            } else {
                PinChange::Store
            }
        },
    }
}

/// The stored value of the "PIN is still the default" flag.
pub fn pin_default_value(is_default: bool) -> (r: &'static str)
    ensures
        r@ == (if is_default {
            "true"@
        } else {
            "false"@
        }),
{
    if is_default {
        "true"
    } else {
        "false"
    }
}

/// Read the "PIN is still the default" flag: only the stored value `true`
/// counts, and a missing or unreadable flag counts as default.
pub fn pin_is_default_flag(row: Option<&str>) -> (r: bool)
    ensures
        r == match row {
            Some(v) => v@ == "true"@,
            None => true,
        },
{
    match row {
        Some(v) => crate::text::str_eq(v, "true"),
        None => true,
    }
}

/// Law: the default flag reads back as it was written.
pub proof fn pin_default_round_trip(is_default: bool)
    ensures
        (if is_default {
            "true"@
        } else {
            "false"@
        }) == "true"@ <==> is_default,
{
    reveal_strlit("true");
    reveal_strlit("false");
    assert("true"@.len() != "false"@.len());
}

/// Law: a PIN change that is accepted and stored as a fresh hash of the new
/// PIN (as `hash_pin` gives it) lets the new PIN sign in, and the new PIN
/// is a valid one; the old PIN was the one that signed in before.
pub proof fn changed_pin_signs_in(
    current: Seq<char>,
    new_pin: Seq<char>,
    old_hash: Seq<char>,
    new_hash: Seq<char>,
)
    requires
        change_outcome(current, new_pin, old_hash) == PinChange::Store,
        bcrypt_verify_outcome(new_pin, new_hash) == Some(true),
    ensures
        login_outcome(new_pin, new_hash) == PinCheck::Accepted,
        login_outcome(current, old_hash) == PinCheck::Accepted,
        valid_pin_spec(new_pin),
{
}

/// Law: a PIN the change flow refuses as wrong would also be refused at sign
/// in, and the other way round.
pub proof fn change_and_login_agree(current: Seq<char>, new_pin: Seq<char>, hash: Seq<char>)
    ensures
        (change_outcome(current, new_pin, hash) == PinChange::Invalid) <==> (login_outcome(
            current,
            hash,
        ) == PinCheck::Invalid),
{
}


/// Law: once the current PIN matches the stored hash, a new PIN of four to
/// eight chars, each `0` to `9`, is stored, and any other new PIN is refused
/// as weak.
pub proof fn digit_pin_change_is_stored(current: Seq<char>, new_pin: Seq<char>, hash: Seq<char>)
    requires
        bcrypt_verify_outcome(current, hash) == Some(true),
    ensures
        (4 <= new_pin.len() && new_pin.len() <= 8 && forall|i: int|
            0 <= i < new_pin.len() ==> '0' <= #[trigger] new_pin[i] && new_pin[i] <= '9')
            ==> change_outcome(current, new_pin, hash) == PinChange::Store,
        !(4 <= new_pin.len() && new_pin.len() <= 8 && forall|i: int|
            0 <= i < new_pin.len() ==> '0' <= #[trigger] new_pin[i] && new_pin[i] <= '9')
            ==> change_outcome(current, new_pin, hash) == PinChange::Weak,
{
}

/// Law: a header that begins with `Bearer ` yields what follows it, trimmed;
/// any other header yields no token.
pub proof fn bearer_token_follows_prefix(header: Seq<char>)
    ensures
        (header.len() >= 7 && header.subrange(0, 7) == seq!['B', 'e', 'a', 'r', 'e', 'r', ' ']) ==> bearer_token_spec(header)
            == Some(trim(header.subrange(7, header.len() as int))),
        !(header.len() >= 7 && header.subrange(0, 7) == seq!['B', 'e', 'a', 'r', 'e', 'r', ' ']) ==> bearer_token_spec(header)
            is None,
{
    reveal_strlit("Bearer ");
    assert("Bearer "@ =~= seq!['B', 'e', 'a', 'r', 'e', 'r', ' ']);
}

} // verus!

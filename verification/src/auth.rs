//! Authentication: bearer tokens, the claims of a token, and the filter
//! that admits a request as a subject with roles.
//!
//! Signing and checking tokens is the work of a [`TokenCodec`]; this module
//! decides what is handed to it and what becomes of its answers.

use crate::error::EmberError;
use crate::text::{
    chars_of, has_prefix, lowercase, lowercase_chars, opt_view, slice_of, starts_with,
    string_of, string_views, trim, trim_chars,
};
use vstd::prelude::*;

verus! {

/// Checks a token.
pub trait Authenticator {
    /// Accepts the token or says why not.
    fn authenticate(&self, token: &str) -> Result<(), EmberError>;
}

/// Who a request was admitted as.
#[derive(Debug)]
pub struct SecurityContext {
    /// Subject identifier (user or service).
    pub subject: String,
    /// Roles for authorization.
    pub roles: Vec<String>,
}

/// A [`SecurityContext`] as plain values.
pub struct ContextView {
    pub subject: Seq<char>,
    pub roles: Seq<Seq<char>>,
}

impl View for SecurityContext {
    type V = ContextView;

    open spec fn view(&self) -> ContextView {
        ContextView { subject: self.subject@, roles: string_views(self.roles@) }
    }
}

impl SecurityContext {
    /// The context of `subject` without roles.
    pub fn new(subject: &str) -> (c: Self)
        ensures
            c@ == (ContextView { subject: subject@, roles: Seq::<Seq<char>>::empty() }),
    {
        let c = SecurityContext { subject: subject.to_owned(), roles: Vec::new() };
        assert(c@.roles =~= Seq::<Seq<char>>::empty());
        c
    }

    /// The same subject with `roles` in place of its roles.
    pub fn with_roles(self, roles: Vec<String>) -> (c: Self)
        ensures
            c@ == (ContextView { subject: self.subject@, roles: string_views(roles@) }),
    {
        SecurityContext { subject: self.subject, roles }
    }
}

/// What a security filter sees of a request.
#[derive(Debug)]
pub struct SecurityRequest {
    /// Request path.
    pub path: String,
    /// Request method.
    pub method: String,
    /// Authorization header value, if present.
    pub authorization: Option<String>,
}

/// Admits a request or refuses it.
pub trait SecurityFilter {
    /// The context the request is admitted with, or why it is refused.
    fn filter(&self, request: &SecurityRequest) -> Result<SecurityContext, EmberError>;
}

/// The token of an `Authorization` header value: the value is trimmed; it
/// must begin with `bearer ` in any mix of upper and lower case; what
/// follows, trimmed, is the token, unless it is empty.
pub open spec fn bearer_token_of(header_value: Seq<char>) -> Option<Seq<char>> {
    let trimmed = trim(header_value);
    let token = trim(trimmed.skip("bearer "@.len() as int));
    if starts_with(lowercase(trimmed), "bearer "@) && token.len() > 0 {
        Some(token)
    } else {
        None
    }
}

/// Reads the bearer token of an `Authorization` header value; see
/// [`bearer_token_of`].
pub fn parse_bearer_token(header_value: &str) -> (r: Option<String>)
    ensures
        opt_view(r) == bearer_token_of(header_value@),
{
    let trimmed = trim_chars(&chars_of(header_value));
    let lower = lowercase_chars(&trimmed);
    let prefix = chars_of("bearer ");
    if has_prefix(&lower, &prefix) {
        assert(lower@.len() == trimmed@.len());
        let token = trim_chars(&slice_of(&trimmed, prefix.len(), trimmed.len()));
        assert(trimmed@.subrange(prefix@.len() as int, trimmed@.len() as int) == trimmed@.skip(
            prefix@.len() as int,
        ));
        if token.len() == 0 {
            None
        } else {
            Some(string_of(&token))
        }
    } else {
        None
    }
}

/// The claims of a token.
#[derive(Debug)]
pub struct JwtClaims {
    /// Subject (user id).
    pub sub: String,
    /// Expiration timestamp (seconds since epoch).
    pub exp: u64,
    /// Roles.
    pub roles: Vec<String>,
    /// Issuer.
    pub iss: Option<String>,
    /// Audience.
    pub aud: Option<String>,
}

/// [`JwtClaims`] as plain values.
pub struct ClaimsView {
    pub sub: Seq<char>,
    pub exp: u64,
    pub roles: Seq<Seq<char>>,
    pub iss: Option<Seq<char>>,
    pub aud: Option<Seq<char>>,
}

impl View for JwtClaims {
    type V = ClaimsView;

    open spec fn view(&self) -> ClaimsView {
        ClaimsView {
            sub: self.sub@,
            exp: self.exp,
            roles: string_views(self.roles@),
            iss: opt_view(self.iss),
            aud: opt_view(self.aud),
        }
    }
}

/// How tokens are signed and checked.
#[derive(Debug)]
pub struct JwtConfig {
    /// Secret for signing and verification.
    pub secret: String,
    /// Issuer that tokens must name, if any.
    pub issuer: Option<String>,
    /// Audience that tokens must name, if any.
    pub audience: Option<String>,
    /// How long a token is valid, in seconds.
    pub expires_in_seconds: u64,
    /// Beginnings of the paths that need no token.
    pub allow_paths: Vec<String>,
}

impl JwtConfig {
    /// The configuration with this secret: no issuer, no audience, one
    /// hour of validity and no public path.
    pub fn new(secret: &str) -> (c: Self)
        ensures
            c.secret@ == secret@,
            c.issuer is None,
            c.audience is None,
            c.expires_in_seconds == 3600,
            c.allow_paths@.len() == 0,
    {
        JwtConfig {
            secret: secret.to_owned(),
            issuer: None,
            audience: None,
            expires_in_seconds: 3600,
            allow_paths: Vec::new(),
        }
    }
}

/// The token library: signs claims into a token and checks a token for
/// its claims. Failures come back as text.
pub trait TokenCodec {
    /// Signs `claims` with `secret`.
    fn issue(&self, claims: &JwtClaims, secret: &str) -> Result<String, String>;

    /// Checks `token` against `secret` and, where given, issuer and
    /// audience; a token that passes gives its claims.
    fn verify(
        &self,
        token: &str,
        secret: &str,
        issuer: &Option<String>,
        audience: &Option<String>,
    ) -> Result<JwtClaims, String>;
}

/// A copy of an optional string.
pub fn copy_opt(o: &Option<String>) -> (r: Option<String>)
    ensures
        opt_view(r) == opt_view(*o),
{
    match o {
        Some(s) => Some(s.clone()),
        None => None,
    }
}

/// The result of issuing a token, given what the codec answered.
pub open spec fn issued(outcome: Result<Seq<char>, Seq<char>>) -> Result<Seq<char>, Seq<char>> {
    match outcome {
        Ok(token) => Ok(token),
        Err(text) => Err("token encode failed: "@ + text),
    }
}

/// Issues tokens under a configuration.
pub struct JwtIssuer<C: TokenCodec> {
    config: JwtConfig,
    codec: C,
}

impl<C: TokenCodec> JwtIssuer<C> {
    /// The issuer's configuration.
    pub closed spec fn config(self) -> JwtConfig {
        self.config
    }

    /// An issuer under `config` that signs with `codec`.
    pub fn new(config: JwtConfig, codec: C) -> (i: Self)
        ensures
            i.config() == config,
    {
        JwtIssuer { config, codec }
    }

    /// The claims of a token issued at `now` (seconds since the epoch): it
    /// expires the configured time later, at the latest at the end of
    /// time, and names the configured issuer and audience.
    pub fn claims_at(&self, now: u64, subject: &str, roles: Vec<String>) -> (c: JwtClaims)
        ensures
            c@ == (ClaimsView {
                sub: subject@,
                exp: if now + self.config().expires_in_seconds > u64::MAX {
                    u64::MAX
                } else {
                    (now + self.config().expires_in_seconds) as u64
                },
                roles: string_views(roles@),
                iss: opt_view(self.config().issuer),
                aud: opt_view(self.config().audience),
            }),
    {
        JwtClaims {
            sub: subject.to_owned(),
            exp: now.saturating_add(self.config.expires_in_seconds),
            roles,
            iss: copy_opt(&self.config.issuer),
            aud: copy_opt(&self.config.audience),
        }
    }

    /// What becomes of the codec's answer; see [`issued`].
    pub fn seal(outcome: Result<String, String>) -> (r: Result<String, EmberError>)
        ensures
            match r {
                Ok(token) => issued(text_result(outcome)) == Ok::<Seq<char>, Seq<char>>(token@),
                Err(e) => issued(text_result(outcome)) == Err::<Seq<char>, Seq<char>>(e@),
            },
    {
        match outcome {
            Ok(token) => Ok(token),
            Err(text) => Err(EmberError::with_detail("token encode failed: ", text.as_str())),
        }
    }

    /// Issues a token for `subject` with `roles` at `now`: the codec signs
    /// the claims of [`Self::claims_at`] with the configured secret, once.
    pub fn issue_token(&self, now: u64, subject: &str, roles: Vec<String>) -> (r: Result<
        String,
        EmberError,
    >)
        ensures
            exists|outcome: Result<Seq<char>, Seq<char>>|
                issued(outcome) == (match r {
                    Ok(token) => Ok::<Seq<char>, Seq<char>>(token@),
                    Err(e) => Err::<Seq<char>, Seq<char>>(e@),
                }),
    {
        let claims = self.claims_at(now, subject, roles);
        let outcome = self.codec.issue(&claims, self.config.secret.as_str());
        let ghost answered = text_result(outcome);
        let r = Self::seal(outcome);
        assert(issued(answered) == (match r {
            Ok(token) => Ok::<Seq<char>, Seq<char>>(token@),
            Err(e) => Err::<Seq<char>, Seq<char>>(e@),
        }));
        r
    }
}

/// A textual outcome as plain values.
pub open spec fn text_result(r: Result<String, String>) -> Result<Seq<char>, Seq<char>> {
    match r {
        Ok(s) => Ok(s@),
        Err(e) => Err(e@),
    }
}

/// Whether `path` begins with one of the public beginnings.
pub open spec fn is_public(allow: Seq<Seq<char>>, path: Seq<char>) -> bool {
    exists|i: int| 0 <= i < allow.len() && starts_with(path, #[trigger] allow[i])
}

/// What a filter decides before any token is checked.
pub enum Admission {
    /// The path is public: the request is admitted as `anonymous`.
    Anonymous,
    /// The request carries this bearer token, which is to be checked.
    Verify(Seq<char>),
    /// The request carries no bearer token and is refused.
    Refuse,
}

/// The decision on a request: a public path needs no token; any other
/// path needs a bearer token in the `Authorization` header.
pub open spec fn admission(
    allow: Seq<Seq<char>>,
    path: Seq<char>,
    authorization: Option<Seq<char>>,
) -> Admission {
    if is_public(allow, path) {
        Admission::Anonymous
    } else {
        match authorization {
            None => Admission::Refuse,
            Some(value) => match bearer_token_of(value) {
                Some(token) => Admission::Verify(token),
                None => Admission::Refuse,
            },
        }
    }
}

/// The result of the filter, given what the codec answered on the token.
pub open spec fn admitted(outcome: Result<ClaimsView, Seq<char>>) -> Result<ContextView, Seq<char>> {
    match outcome {
        Ok(claims) => Ok(ContextView { subject: claims.sub, roles: claims.roles }),
        Err(text) => Err("token decode failed: "@ + text),
    }
}

/// The result of a filter as plain values.
pub open spec fn context_result(r: Result<SecurityContext, EmberError>) -> Result<
    ContextView,
    Seq<char>,
> {
    match r {
        Ok(c) => Ok(c@),
        Err(e) => Err(e@),
    }
}

/// A codec's answer on a token as plain values.
pub open spec fn claims_result(r: Result<JwtClaims, String>) -> Result<ClaimsView, Seq<char>> {
    match r {
        Ok(c) => Ok(c@),
        Err(e) => Err(e@),
    }
}

/// Admits requests by their bearer token.
pub struct JwtAuthFilter<C: TokenCodec> {
    config: JwtConfig,
    codec: C,
}

impl<C: TokenCodec> JwtAuthFilter<C> {
    /// The filter's configuration.
    pub closed spec fn config(self) -> JwtConfig {
        self.config
    }

    /// A filter under `config` that checks tokens with `codec`.
    pub fn new(config: JwtConfig, codec: C) -> (f: Self)
        ensures
            f.config() == config,
    {
        JwtAuthFilter { config, codec }
    }

    /// Whether `path` begins with one of the configured public paths.
    pub fn is_public_path(&self, path: &str) -> (r: bool)
        ensures
            r == is_public(string_views(self.config().allow_paths@), path@),
    {
        let p = chars_of(path);
        let ghost allow = string_views(self.config.allow_paths@);
        let mut i: usize = 0;
        while i < self.config.allow_paths.len()
            invariant
                i <= self.config.allow_paths@.len(),
                allow == string_views(self.config.allow_paths@),
                p@ == path@,
                forall|j: int| 0 <= j < i ==> !starts_with(path@, #[trigger] allow[j]),
            decreases self.config.allow_paths@.len() - i,
        {
            assert(allow[i as int] == self.config.allow_paths@[i as int]@);
            if has_prefix(&p, &chars_of(self.config.allow_paths[i].as_str())) {
                return true;
            }
            i += 1;
        }
        false
    }

    /// What becomes of the codec's answer on a token; see [`admitted`].
    pub fn validate(outcome: Result<JwtClaims, String>) -> (r: Result<SecurityContext, EmberError>)
        ensures
            context_result(r) == admitted(claims_result(outcome)),
    {
        match outcome {
            Ok(claims) => Ok(SecurityContext { subject: claims.sub, roles: claims.roles }),
            Err(text) => Err(EmberError::with_detail("token decode failed: ", text.as_str())),
        }
    }
}

impl<C: TokenCodec> SecurityFilter for JwtAuthFilter<C> {
    /// Admits a request to a public path as `anonymous`, without roles.
    /// Any other request needs a bearer token: without one it is refused
    /// with `missing bearer token`; with one, the codec checks the token
    /// once, and its answer decides as [`admitted`] says.
    fn filter(&self, request: &SecurityRequest) -> (r: Result<SecurityContext, EmberError>)
        ensures
            match admission(
                string_views(self.config().allow_paths@),
                request.path@,
                opt_view(request.authorization),
            ) {
                Admission::Anonymous => context_result(r) == Ok::<ContextView, Seq<char>>(
                    ContextView { subject: "anonymous"@, roles: Seq::<Seq<char>>::empty() },
                ),
                Admission::Refuse => context_result(r) == Err::<ContextView, Seq<char>>(
                    "missing bearer token"@,
                ),
                Admission::Verify(_) => exists|outcome: Result<ClaimsView, Seq<char>>|
                    context_result(r) == admitted(outcome),
            },
    {
        if self.is_public_path(request.path.as_str()) {
            return Ok(SecurityContext::new("anonymous"));
        }
        let token = match &request.authorization {
            None => None,
            Some(value) => parse_bearer_token(value.as_str()),
        };
        match token {
            None => Err(EmberError::msg("missing bearer token")),
            Some(token) => {
                let outcome = self.codec.verify(
                    token.as_str(),
                    self.config.secret.as_str(),
                    &self.config.issuer,
                    &self.config.audience,
                );
                let ghost answered = claims_result(outcome);
                let r = Self::validate(outcome);
                assert(context_result(r) == admitted(answered));
                r
            },
        }
    }
}

} // verus!

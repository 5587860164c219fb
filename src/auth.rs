//! Sessions, and the guard in front of the protected routes.
//!
//! There is one principal, the holder of the shared password. A successful
//! login hands out a fixed marker, and a request is authenticated exactly when
//! its session cookie carries that marker: validity is a pure function of the
//! cookie's value and nothing is kept on the server.

use vstd::prelude::*;
use vstd::string::StringExecFns;

verus! {

/// The value of the session cookie after a successful login.
pub open spec fn session_marker() -> Seq<char> {
    seq!['o', 'k']
}

/// The name of the cookie that carries the session.
pub open spec fn session_cookie() -> Seq<char> {
    seq!['a', 'u', 't', 'h']
}

/// Whether a presented cookie value (if any) proves a login.
pub open spec fn valid_token(token: Option<Seq<char>>) -> bool {
    token == Some(session_marker())
}

/// The cookie value handed out for a login attempt with `password`.
pub open spec fn issue_spec(secret: Seq<char>, password: Seq<char>) -> Result<Seq<char>, AuthError> {
    if password == secret {
        Ok(session_marker())
    } else {
        Err(AuthError::InvalidCredentials)
    }
}

/// The marker a successful login hands out.
pub fn session_marker_value() -> (r: String)
    ensures
        r@ == session_marker(),
{
    proof {
        reveal_strlit("ok");
    }
    String::from_str("ok")
}

/// The name of the session cookie.
pub fn session_cookie_name() -> (r: String)
    ensures
        r@ == session_cookie(),
{
    proof {
        reveal_strlit("auth");
    }
    String::from_str("auth")
}

#[derive(Debug, Clone, Copy, PartialEq, Eq, Structural)]
pub enum AuthError {
    /// The password does not match the shared secret.
    InvalidCredentials,
}

#[derive(Debug, Clone, Copy, PartialEq, Eq, Structural)]
pub enum ConfigError {
    /// The shared secret is empty.
    EmptySecret,
}

/// Issues and validates session tokens against the shared secret.
pub struct SessionStore {
    secret: String,
}

impl SessionStore {
    pub closed spec fn secret_view(&self) -> Seq<char> {
        self.secret@
    }

    pub open spec fn wf(&self) -> bool {
        self.secret_view().len() > 0
    }

    /// Takes the shared secret, which must not be empty.
    pub fn new(secret: String) -> (r: Result<SessionStore, ConfigError>)
        ensures
            secret@.len() == 0 <==> r is Err,
            r is Err ==> r == Err::<SessionStore, ConfigError>(ConfigError::EmptySecret),
            r matches Ok(s) ==> s.wf() && s.secret_view() == secret@,
    {
        if secret.as_str().unicode_len() == 0 {
            Err(ConfigError::EmptySecret)
        } else {
            Ok(SessionStore { secret })
        }
    }

    /// Compares `password` with the shared secret; on a match returns the
    /// session marker.
    pub fn issue(&self, password: &str) -> (r: Result<String, AuthError>)
        ensures
            match r {
                Ok(t) => issue_spec(self.secret_view(), password@) == Ok::<Seq<char>, AuthError>(t@),
                Err(e) => issue_spec(self.secret_view(), password@) == Err::<Seq<char>, AuthError>(e),
            },
    {
        let supplied = String::from_str(password);
        if supplied == self.secret {
            Ok(session_marker_value())
        } else {
            Err(AuthError::InvalidCredentials)
        }
    }

    /// What a login form submission leads to: on a match the session cookie
    /// is set and the client goes to the main page, else back to the login
    /// page with no cookie.
    pub fn login(&self, password: &str) -> (r: LoginOutcome)
        ensures
            password@ == self.secret_view() ==> (r.set_cookie matches Some(c) && c@ == session_marker()
                && r.redirect@ == seq!['/']),
            password@ != self.secret_view() ==> r.set_cookie is None
                && r.redirect@ == seq!['/', 'l', 'o', 'g', 'i', 'n'],
    {
        match self.issue(password) {
            Ok(token) => {
                proof {
                    reveal_strlit("/");
                }
                LoginOutcome { set_cookie: Some(token), redirect: String::from_str("/") }
            },
            Err(_) => {
                proof {
                    reveal_strlit("/login");
                }
                LoginOutcome { set_cookie: None, redirect: String::from_str("/login") }
            },
        }
    }
}

/// The response to a login form submission.
pub struct LoginOutcome {
    /// The session cookie's value to set, if the login succeeded.
    pub set_cookie: Option<String>,
    /// Where the client is sent next.
    pub redirect: String,
}

/// Tells whether the presented session cookie value proves a login.
pub fn validate(token: Option<&str>) -> (r: bool)
    ensures
        r == valid_token(
            match token {
                Some(t) => Some(t@),
                None => None,
            },
        ),
{
    match token {
        Some(t) => {
            let presented = String::from_str(t);
            let marker = session_marker_value();
            presented == marker
        },
        None => false,
    }
}

/// The routes the service offers.
#[derive(Debug, Clone, Copy, PartialEq, Eq, Structural)]
pub enum Route {
    LoginPage,
    LoginSubmit,
    Index,
    Upload,
    Files,
    Download,
}

/// Every route but the two login routes needs a session.
pub open spec fn protected(route: Route) -> bool {
    !(route is LoginPage || route is LoginSubmit)
}

impl Route {
    /// Whether the route is guarded.
    pub fn requires_session(&self) -> (r: bool)
        ensures
            r == protected(*self),
    {
        match self {
            Route::LoginPage | Route::LoginSubmit => false,
            _ => true,
        }
    }
}

/// The route a request path names: the login routes, the three fixed
/// protected routes, and the download route for every other path (the
/// service routes only `/download/{name}` paths there).
pub open spec fn route_spec(path: Seq<char>) -> Route {
    if path == "/login"@ {
        Route::LoginPage
    } else if path == "/"@ {
        Route::Index
    } else if path == "/upload"@ {
        Route::Upload
    } else if path == "/files"@ {
        Route::Files
    } else {
        Route::Download
    }
}

impl Route {
    /// The route of a request path, among the paths the service serves.
    pub fn of_path(path: &str) -> (r: Route)
        ensures
            r == route_spec(path@),
    {
        let p = String::from_str(path);
        if p == String::from_str("/login") {
            Route::LoginPage
        } else if p == String::from_str("/") {
            Route::Index
        } else if p == String::from_str("/upload") {
            Route::Upload
        } else if p == String::from_str("/files") {
            Route::Files
        } else {
            Route::Download
        }
    }
}

/// What the guard does with a request.
#[derive(Debug, Clone, Copy, PartialEq, Eq, Structural)]
pub enum GateDecision {
    /// The handler runs.
    Proceed,
    /// The request is answered with an unauthorized status; the handler never
    /// runs.
    Unauthorized,
}

/// The guard's decision for a request to `route` carrying `token`.
pub open spec fn gate_spec(route: Route, token: Option<Seq<char>>) -> GateDecision {
    if protected(route) && !valid_token(token) {
        GateDecision::Unauthorized
    } else {
        GateDecision::Proceed
    }
}

/// Decides whether a request to `route` carrying the session cookie value
/// `token` reaches its handler.
pub fn gate(route: Route, token: Option<&str>) -> (r: GateDecision)
    ensures
        r == gate_spec(
            route,
            match token {
                Some(t) => Some(t@),
                None => None,
            },
        ),
{
    if route.requires_session() && !validate(token) {
        GateDecision::Unauthorized
    } else {
        GateDecision::Proceed
    }
}

impl GateDecision {
    /// The HTTP status of a refusal, or none when the request proceeds.
    pub fn status_code(&self) -> (r: Option<u16>)
        ensures
            *self is Unauthorized ==> r == Some(401u16),
            *self is Proceed ==> r is None,
    {
        match self {
            GateDecision::Proceed => None,
            GateDecision::Unauthorized => Some(401),
        }
    }
}

/// A password that matches the secret yields a token that validates; any
/// other password yields no token.
pub proof fn lemma_issue_then_validate(secret: Seq<char>, password: Seq<char>)
    requires
        secret.len() > 0,
    ensures
        password == secret ==> (issue_spec(secret, password) matches Ok(t) && valid_token(Some(t))),
        password != secret ==> issue_spec(secret, password) is Err,
{
}

/// A request without a valid session cookie never reaches a protected
/// handler.
pub proof fn lemma_gate_blocks_anonymous(route: Route, token: Option<Seq<char>>)
    requires
        protected(route),
        !valid_token(token),
    ensures
        gate_spec(route, token) == GateDecision::Unauthorized,
{
}

} // verus!

use vstd::prelude::*;

verus! {

/// The name of the cookie that carries the session id.
pub fn session_cookie_name() -> (name: &'static str)
    ensures
        name@ == "session_id"@,
{
    "session_id"
}

/// The path that the session cookie is sent for.
pub fn session_cookie_path() -> (path: &'static str)
    ensures
        path@ == "/"@,
{
    "/"
}

/// The session cookie is marked HTTP only: scripts cannot read it.
pub const SESSION_COOKIE_HTTP_ONLY: bool = true;

/// The lifetime of the session cookie, in seconds.
pub const SESSION_COOKIE_MAX_AGE_SECS: i64 = 300;

/// A page that a redirect points to.
#[derive(Clone, Copy, Debug, PartialEq, Eq, Structural)]
pub enum Target {
    /// `/`, the captcha page.
    Captcha,
    /// `/login`.
    Login,
    /// `/main`.
    Main,
}

/// The path of a redirect target.
pub open spec fn target_path(t: Target) -> Seq<char> {
    match t {
        Target::Captcha => "/"@,
        Target::Login => "/login"@,
        Target::Main => "/main"@,
    }
}

impl Target {
    /// The path that the `Location` header carries.
    pub fn path(&self) -> (p: &'static str)
        ensures
            p@ == target_path(*self),
    {
        match self {
            Target::Captcha => "/",
            Target::Login => "/login",
            Target::Main => "/main",
        }
    }
}

/// The status of an answer that carries a body.
#[derive(Clone, Copy, Debug, PartialEq, Eq, Structural)]
pub enum Status {
    /// 200
    Success,
    /// 401
    Unauthorized,
    /// 404
    NotFound,
}

/// The declared type of a body.
#[derive(Clone, Copy, Debug, PartialEq, Eq, Structural)]
pub enum ContentType {
    /// `text/html; charset=utf-8`
    Html,
    /// `text/plain; charset=utf-8`
    PlainText,
    /// No `Content-Type` is set by the page.
    Unset,
}

/// The answer to a request.
#[derive(Debug)]
pub enum Reply {
    /// `302 Found` to `to`; when `session` holds an id, the answer also sets
    /// the session cookie to it (path `session_cookie_path()`, HTTP only as
    /// `SESSION_COOKIE_HTTP_ONLY` says, a lifetime of
    /// `SESSION_COOKIE_MAX_AGE_SECS`).
    Redirect { to: Target, session: Option<String> },
    /// A page with a body.
    Content { status: Status, content_type: ContentType, body: String },
}

/// The spec view of a `Reply`.
pub enum ReplyView {
    Redirect { to: Target, session: Option<Seq<char>> },
    Content { status: Status, content_type: ContentType, body: Seq<char> },
}

impl View for Reply {
    type V = ReplyView;

    open spec fn view(&self) -> ReplyView {
        match self {
            Reply::Redirect { to, session } => ReplyView::Redirect {
                to: *to,
                session: match session {
                    Some(s) => Some(s@),
                    None => None,
                },
            },
            Reply::Content { status, content_type, body } => ReplyView::Content {
                status: *status,
                content_type: *content_type,
                body: body@,
            },
        }
    }
}

} // verus!

use vstd::prelude::*;

use crate::reply::{ContentType, Reply, ReplyView, Status, Target};
use crate::session::{self, SessionStore, NANOS_PER_SEC};
use crate::text::{self, u128_to_decimal, u64_to_decimal};

verus! {

/// The request carries a session cookie that names an open session.
pub open spec fn session_active(sessions: Map<Seq<char>, i128>, session_cookie: Option<Seq<char>>) -> bool {
    match session_cookie {
        Some(id) => sessions.contains_key(id),
        None => false,
    }
}

/// Whether the request's session cookie names an open session.
pub fn has_active_session(store: &SessionStore, session_cookie: Option<&String>) -> (b: bool)
    ensures
        b == session_active(store@, session::opt_string_view(session_cookie)),
{
    match session_cookie {
        Some(id) => store.contains(id),
        None => false,
    }
}

/// What `GET /login` answers.
pub open spec fn login_page_reply(
    sessions: Map<Seq<char>, i128>,
    session_cookie: Option<Seq<char>>,
    template: Seq<char>,
) -> ReplyView {
    if session_active(sessions, session_cookie) {
        ReplyView::Redirect { to: Target::Main, session: None }
    } else {
        ReplyView::Content { status: Status::Success, content_type: ContentType::Html, body: template }
    }
}

/// `GET /login`: a visitor with an open session goes on to the main page;
/// anyone else gets the login form `template`.
pub fn login_page(store: &SessionStore, session_cookie: Option<&String>, template: &str) -> (r: Reply)
    ensures
        r@ == login_page_reply(store@, session::opt_string_view(session_cookie), template@),
{
    if has_active_session(store, session_cookie) {
        Reply::Redirect { to: Target::Main, session: None }
    } else {
        Reply::Content {
            status: Status::Success,
            content_type: ContentType::Html,
            body: String::from_str(template),
        }
    }
}

/// The id of a session opened at `now` (nanoseconds from the UNIX epoch,
/// not before it): the whole seconds since the epoch, in decimal.
pub open spec fn session_id_at(now: i128) -> Seq<char> {
    text::decimal((now / NANOS_PER_SEC) as nat)
}

/// The id that `login` gives a session opened at `now`: the whole seconds
/// since the UNIX epoch, or `"0"` when the clock reads before the epoch.
pub open spec fn login_session_id(now: i128) -> Seq<char> {
    if now >= 0 {
        session_id_at(now)
    } else {
        "0"@
    }
}

/// The id of a session opened at `now`.
pub fn session_id_for(now: i128) -> (id: String)
    requires
        now >= 0,
    ensures
        id@ == session_id_at(now),
{
    u128_to_decimal((now / NANOS_PER_SEC) as u128)
}

/// `POST /login` at `now`: any submission opens a session, named after the
/// current second, records `now` as its last access, sets its cookie and
/// goes on to the main page.
pub fn login(store: &mut SessionStore, now: i128) -> (r: Reply)
    ensures
        final(store)@ == old(store)@.insert(login_session_id(now), now),
        r@ == (ReplyView::Redirect { to: Target::Main, session: Some(login_session_id(now)) }),
{
    let id = if now >= 0 {
        session_id_for(now)
    } else {
        String::from_str("0")
    };
    store.touch(id.clone(), now);
    Reply::Redirect { to: Target::Main, session: Some(id) }
}

/// The text before the number of users on the main page.
pub open spec fn main_page_head() -> Seq<char> {
    MAIN_PAGE_HEAD@
}

/// The text after the number of users on the main page.
pub open spec fn main_page_tail() -> Seq<char> {
    MAIN_PAGE_TAIL@
}

/// The main page, showing `online` users.
pub open spec fn main_page_html(online: nat) -> Seq<char> {
    main_page_head() + text::decimal(online) + main_page_tail()
}

/// What `GET /main` answers.
pub open spec fn main_page_reply(sessions: Map<Seq<char>, i128>, session_cookie: Option<Seq<char>>) -> ReplyView {
    if session_active(sessions, session_cookie) {
        ReplyView::Content {
            status: Status::Success,
            content_type: ContentType::Html,
            body: main_page_html(sessions.len()),
        }
    } else {
        ReplyView::Redirect { to: Target::Login, session: None }
    }
}

/// `GET /main`: a visitor with an open session sees the main page with the
/// number of open sessions; anyone else is sent to the login page.
pub fn main_page(store: &SessionStore, session_cookie: Option<&String>) -> (r: Reply)
    ensures
        r@ == main_page_reply(store@, session::opt_string_view(session_cookie)),
{
    if has_active_session(store, session_cookie) {
        let online = store.len();
        let mut body = String::from_str(MAIN_PAGE_HEAD);
        let count = u64_to_decimal(online as u64);
        body.append(count.as_str());
        body.append(MAIN_PAGE_TAIL);
        Reply::Content { status: Status::Success, content_type: ContentType::Html, body }
    } else {
        Reply::Redirect { to: Target::Login, session: None }
    }
}

/// What an unknown route answers.
pub open spec fn not_found_reply(template: Seq<char>) -> ReplyView {
    ReplyView::Content { status: Status::NotFound, content_type: ContentType::Html, body: template }
}

/// Any other route: the not-found page `template`, with status 404.
pub fn not_found_page(template: &str) -> (r: Reply)
    ensures
        r@ == not_found_reply(template@),
{
    Reply::Content {
        status: Status::NotFound,
        content_type: ContentType::Html,
        body: String::from_str(template),
    }
}

/// What `GET /ping` answers.
pub open spec fn ping_reply(sessions: Map<Seq<char>, i128>, session_cookie: Option<Seq<char>>) -> ReplyView {
    if session_active(sessions, session_cookie) {
        ReplyView::Content { status: Status::Success, content_type: ContentType::Unset, body: "pong"@ }
    } else {
        ReplyView::Content {
            status: Status::Unauthorized,
            content_type: ContentType::Unset,
            body: "Não autorizado."@,
        }
    }
}

/// `GET /ping`: `pong` for a visitor with an open session, 401 otherwise.
pub fn ping(store: &SessionStore, session_cookie: Option<&String>) -> (r: Reply)
    ensures
        r@ == ping_reply(store@, session::opt_string_view(session_cookie)),
{
    if has_active_session(store, session_cookie) {
        Reply::Content {
            status: Status::Success,
            content_type: ContentType::Unset,
            body: String::from_str("pong"),
        }
    } else {
        Reply::Content {
            status: Status::Unauthorized,
            content_type: ContentType::Unset,
            body: String::from_str("Não autorizado."),
        }
    }
}

/// What `GET /status` answers.
pub open spec fn status_reply(sessions: Map<Seq<char>, i128>, session_cookie: Option<Seq<char>>) -> ReplyView {
    ReplyView::Content {
        status: Status::Success,
        content_type: ContentType::PlainText,
        body: if session_active(sessions, session_cookie) {
            "Usuário está online."@
        } else {
            "Usuário está offline."@
        },
    }
}

/// `GET /status`: says whether the visitor's session is open.
pub fn status(store: &SessionStore, session_cookie: Option<&String>) -> (r: Reply)
    ensures
        r@ == status_reply(store@, session::opt_string_view(session_cookie)),
{
    let text = if has_active_session(store, session_cookie) {
        "Usuário está online."
    } else {
        "Usuário está offline."
    };
    Reply::Content {
        status: Status::Success,
        content_type: ContentType::PlainText,
        body: String::from_str(text),
    }
}

/// The text of the main page before the number of users online.
pub const MAIN_PAGE_HEAD: &'static str = r#"
                <!DOCTYPE html>
                <html lang="pt-br">
                <head>
                    <meta charset="UTF-8">
                    <meta name="viewport" content="width=device-width, initial-scale=1.0">
                    <title>Página Principal</title>
                    <style>
                        body {
                            font-family: Arial, sans-serif;
                            text-align: center;
                            background-color: #f0f0f0;
                            display: flex;
                            justify-content: center;
                            align-items: center;
                            height: 100vh;
                        }
                        .container {
                            background-color: white;
                            padding: 20px;
                            border-radius: 10px;
                            box-shadow: 0 2px 10px rgba(0, 0, 0, 0.1);
                        }
                        h1 {
                            color: #333;
                        }
                        p {
                            font-size: 18px;
                        }
                    </style>
                </head>
                <body>
                    <div class="container">
                        <h1>Bem-vindo à Página Principal!</h1>
                        <p>Usuários online: "#;

/// The text of the main page after the number of users online.
pub const MAIN_PAGE_TAIL: &'static str = r#"</p>
                    </div>
                </body>
                </html>
                "#;

} // verus!

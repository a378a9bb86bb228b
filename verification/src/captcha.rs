use rand::Rng;
use vstd::prelude::*;

use crate::pages::{self, session_id_for};
use crate::reply::{ContentType, Reply, ReplyView, Status, Target};
use crate::session::{self, SessionStore};
use crate::text::{self, replace};

verus! {

/// A number drawn by `rand::Rng::gen_range` on the thread's generator from
/// `low..high`: the documentation of `gen_range` promises a value of the
/// half-open range, and the call panics only on an empty range, which
/// `requires` rules out. Which value comes is chance.
#[verifier::external_body]
fn gen_range_u32(low: u32, high: u32) -> (r: u32)
    requires
        low < high,
    ensures
        low <= r < high,
{
    rand::thread_rng().gen_range(low..high)
}

/// The two addends of a captcha question; the answer is their sum.
#[derive(Clone, Copy, Debug)]
pub struct Captcha {
    pub a: u32,
    pub b: u32,
}

/// A fresh question: two numbers drawn at random from 1 to 9.
pub fn new_captcha() -> (c: Captcha)
    ensures
        1 <= c.a < 10,
        1 <= c.b < 10,
{
    let a = gen_range_u32(1, 10);
    let b = gen_range_u32(1, 10);
    Captcha { a, b }
}

/// The captcha page: `template` with `{{ a }}`, then `{{ b }}`, then
/// `{{ sum }}` replaced by the two addends and their sum in decimal.
pub open spec fn captcha_html(template: Seq<char>, a: nat, b: nat) -> Seq<char> {
    text::replace_all(
        text::replace_all(text::replace_all(template, "{{ a }}"@, text::decimal(a)), "{{ b }}"@, text::decimal(b)),
        "{{ sum }}"@,
        text::decimal(a + b),
    )
}

/// Fills the captcha page template with the question `c`.
pub fn render_captcha(template: &str, c: Captcha) -> (html: String)
    ensures
        html@ == captcha_html(template@, c.a as nat, c.b as nat),
{
    proof {
        reveal_strlit("{{ a }}");
        reveal_strlit("{{ b }}");
        reveal_strlit("{{ sum }}");
    }
    let sum: u64 = c.a as u64 + c.b as u64;
    let a_text = text::u64_to_decimal(c.a as u64);
    let b_text = text::u64_to_decimal(c.b as u64);
    let sum_text = text::u64_to_decimal(sum);
    let with_a = replace(template, "{{ a }}", a_text.as_str());
    let with_b = replace(with_a.as_str(), "{{ b }}", b_text.as_str());
    replace(with_b.as_str(), "{{ sum }}", sum_text.as_str())
}

/// What `GET /` answers when the question drawn is `c`.
pub open spec fn captcha_page_reply(
    sessions: Map<Seq<char>, i128>,
    session_cookie: Option<Seq<char>>,
    template: Seq<char>,
    c: Captcha,
) -> ReplyView {
    if pages::session_active(sessions, session_cookie) {
        ReplyView::Redirect { to: Target::Login, session: None }
    } else {
        ReplyView::Content {
            status: Status::Success,
            content_type: ContentType::Html,
            body: captcha_html(template, c.a as nat, c.b as nat),
        }
    }
}

/// `GET /` with the question `c`: a visitor with an open session goes on to
/// the login page; anyone else gets the captcha page asking for `c`.
pub fn captcha_page_for(store: &SessionStore, session_cookie: Option<&String>, template: &str, c: Captcha)
    -> (r: Reply)
    ensures
        r@ == captcha_page_reply(store@, session::opt_string_view(session_cookie), template@, c),
{
    if pages::has_active_session(store, session_cookie) {
        Reply::Redirect { to: Target::Login, session: None }
    } else {
        Reply::Content {
            status: Status::Success,
            content_type: ContentType::Html,
            body: render_captcha(template, c),
        }
    }
}

/// `GET /`: as `captcha_page_for`, with a question drawn at random (only
/// when the page is shown).
pub fn captcha_page(store: &SessionStore, session_cookie: Option<&String>, template: &str) -> (r: Reply)
    ensures
        pages::session_active(store@, session::opt_string_view(session_cookie))
            ==> r@ == (ReplyView::Redirect { to: Target::Login, session: None }),
        !pages::session_active(store@, session::opt_string_view(session_cookie)) ==> exists|c: Captcha|
            1 <= c.a < 10 && 1 <= c.b < 10
            && r@ == #[trigger] captcha_page_reply(store@, session::opt_string_view(session_cookie), template@, c),
{
    if pages::has_active_session(store, session_cookie) {
        Reply::Redirect { to: Target::Login, session: None }
    } else {
        let c = new_captcha();
        captcha_page_for(store, session_cookie, template, c)
    }
}

/// The expected answer as the form sent it (`"0"` when missing) equals the
/// visitor's answer (empty when missing).
pub open spec fn captcha_answer_accepted(captcha_value: Option<Seq<char>>, captcha: Option<Seq<char>>) -> bool {
    let expected = match captcha_value {
        Some(v) => v,
        None => "0"@,
    };
    let given = match captcha {
        Some(v) => v,
        None => ""@,
    };
    expected == given
}

/// Compares the form's `captcha_value` field with its `captcha` field.
pub fn check_captcha_answer(captcha_value: Option<&String>, captcha: Option<&String>) -> (ok: bool)
    ensures
        ok == captcha_answer_accepted(session::opt_string_view(captcha_value), session::opt_string_view(captcha)),
{
    let expected = match captcha_value {
        Some(v) => v.clone(),
        None => String::from_str("0"),
    };
    let given = match captcha {
        Some(v) => v.clone(),
        None => String::from_str(""),
    };
    expected == given
}

/// `POST /validate_captcha` at `now` (nanoseconds from the UNIX epoch): a
/// right answer opens a session named after the current second, sets its
/// cookie and goes on to the login page; a wrong one goes back to the
/// captcha page and leaves the table as it was. A right answer needs a
/// clock that reads after the epoch, since the session is named after the
/// seconds elapsed since it.
pub fn validate_captcha(
    store: &mut SessionStore,
    captcha_value: Option<&String>,
    captcha: Option<&String>,
    now: i128,
) -> (r: Reply)
    requires
        captcha_answer_accepted(session::opt_string_view(captcha_value), session::opt_string_view(captcha)) ==> now >= 0,
    ensures
        captcha_answer_accepted(session::opt_string_view(captcha_value), session::opt_string_view(captcha)) ==> {
            &&& final(store)@ == old(store)@.insert(pages::session_id_at(now), now)
            &&& r@ == (ReplyView::Redirect { to: Target::Login, session: Some(pages::session_id_at(now)) })
        },
        !captcha_answer_accepted(session::opt_string_view(captcha_value), session::opt_string_view(captcha)) ==> {
            &&& final(store)@ == old(store)@
            &&& r@ == (ReplyView::Redirect { to: Target::Captcha, session: None })
        },
{
    if check_captcha_answer(captcha_value, captcha) {
        let id = session_id_for(now);
        store.touch(id.clone(), now);
        Reply::Redirect { to: Target::Login, session: Some(id) }
    } else {
        Reply::Redirect { to: Target::Captcha, session: None }
    }
}

} // verus!

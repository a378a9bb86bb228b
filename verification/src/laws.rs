//! Properties of the portal that span several operations.
use vstd::prelude::*;

use crate::captcha::{self, Captcha};
use crate::pages;
use crate::reply::{ContentType, ReplyView, Status, Target};
use crate::session::{self, SessionStore, NANOS_PER_SEC};
use crate::text;

verus! {

/// The value of a decimal digit character.
pub open spec fn digit_value(c: char) -> nat {
    if c == '1' { 1 }
    else if c == '2' { 2 }
    else if c == '3' { 3 }
    else if c == '4' { 4 }
    else if c == '5' { 5 }
    else if c == '6' { 6 }
    else if c == '7' { 7 }
    else if c == '8' { 8 }
    else if c == '9' { 9 }
    else { 0 }
}

/// The number that a string of decimal digits denotes.
pub open spec fn decimal_value(s: Seq<char>) -> nat
    decreases s.len(),
{
    if s.len() == 0 {
        0
    } else {
        decimal_value(s.drop_last()) * 10 + digit_value(s.last())
    }
}

proof fn digit_reads_back(d: nat)
    requires
        d < 10,
    ensures
        digit_value(text::digit_char(d)) == d,
{
}

/// Reading back the decimal notation of `n` gives `n`.
pub proof fn decimal_reads_back(n: nat)
    ensures
        decimal_value(text::decimal(n)) == n,
    decreases n,
{
    if n < 10 {
        let s = text::decimal(n);
        digit_reads_back(n);
        assert(s.drop_last() =~= Seq::<char>::empty());
        assert(decimal_value(s.drop_last()) == 0);
        assert(decimal_value(s) == decimal_value(s.drop_last()) * 10 + digit_value(s.last()));
    } else {
        decimal_reads_back(n / 10);
        digit_reads_back(n % 10);
        let s = text::decimal(n);
        assert(s.drop_last() =~= text::decimal(n / 10));
        assert(s.last() == text::digit_char(n % 10));
        assert((n / 10) * 10 + n % 10 == n);
        assert(decimal_value(s) == decimal_value(s.drop_last()) * 10 + digit_value(s.last()));
        assert(decimal_value(s.drop_last()) == n / 10);
    }
}

/// Two numbers with the same decimal notation are equal.
pub proof fn decimal_is_injective(a: nat, b: nat)
    requires
        text::decimal(a) == text::decimal(b),
    ensures
        a == b,
{
    decimal_reads_back(a);
    decimal_reads_back(b);
}

/// Sessions opened in different seconds get different ids.
pub proof fn session_ids_differ_across_seconds(t1: i128, t2: i128)
    requires
        0 <= t1,
        0 <= t2,
        t1 / NANOS_PER_SEC != t2 / NANOS_PER_SEC,
    ensures
        pages::session_id_at(t1) != pages::session_id_at(t2),
{
    if pages::session_id_at(t1) == pages::session_id_at(t2) {
        decimal_is_injective((t1 / NANOS_PER_SEC) as nat, (t2 / NANOS_PER_SEC) as nat);
    }
}

/// Every page that looks at the session cookie draws the same line: ping
/// answers `pong`, status says online, the main page is shown, the login
/// page and the captcha page send the visitor on, exactly when the cookie
/// names an open session.
pub proof fn pages_agree_on_session(
    sessions: Map<Seq<char>, i128>,
    session_cookie: Option<Seq<char>>,
    login_template: Seq<char>,
    captcha_template: Seq<char>,
    c: Captcha,
)
    ensures
        pages::session_active(sessions, session_cookie) <==> (pages::ping_reply(sessions, session_cookie)
            == ReplyView::Content { status: Status::Success, content_type: ContentType::Unset, body: "pong"@ }),
        pages::session_active(sessions, session_cookie) <==> (pages::status_reply(sessions, session_cookie)
            == ReplyView::Content {
                status: Status::Success,
                content_type: ContentType::PlainText,
                body: "Usuário está online."@,
            }),
        pages::session_active(sessions, session_cookie) <==> (pages::main_page_reply(sessions, session_cookie)
            is Content),
        pages::session_active(sessions, session_cookie) <==> (pages::login_page_reply(sessions, session_cookie,
            login_template) == ReplyView::Redirect { to: Target::Main, session: None }),
        pages::session_active(sessions, session_cookie) <==> (captcha::captcha_page_reply(sessions,
            session_cookie, captcha_template, c) == ReplyView::Redirect { to: Target::Login, session: None }),
{
    reveal_strlit("pong");
    reveal_strlit("Não autorizado.");
    reveal_strlit("Usuário está online.");
    reveal_strlit("Usuário está offline.");
    assert("Usuário está online."@ != "Usuário está offline."@) by {
        assert("Usuário está online."@.len() != "Usuário está offline."@.len());
    }
}

/// A request with a session cookie leaves that session open, last seen at
/// the time of the request.
pub proof fn request_keeps_its_session(sessions: Map<Seq<char>, i128>, id: Seq<char>, now: i128)
    ensures
        session::after_request(sessions, Some(id), now).contains_key(id),
        session::after_request(sessions, Some(id), now)[id] == now,
{
}

/// After a request with a session cookie, every open session is live.
pub proof fn request_closes_stale_sessions(sessions: Map<Seq<char>, i128>, id: Seq<char>, now: i128)
    ensures
        forall|k: Seq<char>| #[trigger] session::after_request(sessions, Some(id), now).contains_key(k)
            ==> session::is_live(session::after_request(sessions, Some(id), now)[k], now),
{
}

/// A request opens no session but its own and changes no other session's
/// last access.
pub proof fn request_touches_only_its_session(sessions: Map<Seq<char>, i128>, id: Seq<char>, now: i128)
    ensures
        forall|k: Seq<char>| #[trigger] session::after_request(sessions, Some(id), now).contains_key(k)
            && k != id ==> sessions.contains_key(k)
            && session::after_request(sessions, Some(id), now)[k] == sessions[k],
{
}

/// Closing stale sessions twice at the same time closes nothing more.
pub proof fn purge_is_idempotent(sessions: Map<Seq<char>, i128>, now: i128)
    ensures
        session::live_sessions(session::live_sessions(sessions, now), now)
            == session::live_sessions(sessions, now),
{
    assert(session::live_sessions(session::live_sessions(sessions, now), now)
        =~= session::live_sessions(sessions, now));
}

/// Closing stale sessions only closes: every session left was open before,
/// with the same last access.
pub proof fn purge_only_closes(sessions: Map<Seq<char>, i128>, now: i128)
    ensures
        session::live_sessions(sessions, now).submap_of(sessions),
{
}

/// A session last seen at `last_access` stays live for exactly
/// `SESSION_TIMEOUT_SECS` seconds.
pub proof fn session_lives_for_the_timeout(last_access: i128, now: i128)
    requires
        last_access <= now,
    ensures
        session::is_live(last_access, now) <==> now - last_access < session::SESSION_TIMEOUT_SECS
            * NANOS_PER_SEC,
{
    let d: int = now - last_access;
    assert(d / 1_000_000_000 < 300 <==> d < 300_000_000_000) by (nonlinear_arith)
        requires
            d >= 0,
    ;
}

/// A form that repeats the expected answer passes the captcha, and a form
/// whose answer differs from it does not.
pub proof fn captcha_accepts_exactly_the_answer(expected: Seq<char>, given: Seq<char>)
    ensures
        captcha::captcha_answer_accepted(Some(expected), Some(given)) <==> expected == given,
{
}

/// The session that a login opens is recognised by every page.
pub proof fn login_opens_a_recognised_session(sessions: Map<Seq<char>, i128>, now: i128)
    ensures
        pages::session_active(
            sessions.insert(pages::login_session_id(now), now),
            Some(pages::login_session_id(now)),
        ),
        pages::ping_reply(
            sessions.insert(pages::login_session_id(now), now),
            Some(pages::login_session_id(now)),
        ) == (ReplyView::Content { status: Status::Success, content_type: ContentType::Unset, body: "pong"@ }),
{
}

/// After a login, the main page shown with its cookie counts one user more
/// than were open before, unless the login's id was open already.
pub proof fn login_counts_one_more_user(store: &SessionStore, now: i128)
    ensures
        pages::main_page_reply(
            store@.insert(pages::login_session_id(now), now),
            Some(pages::login_session_id(now)),
        ) == (ReplyView::Content {
            status: Status::Success,
            content_type: ContentType::Html,
            body: pages::main_page_html(
                if store@.contains_key(pages::login_session_id(now)) {
                    store@.len()
                } else {
                    store@.len() + 1
                },
            ),
        }),
{
    store.lemma_view_finite();
}

/// The session that a right captcha answer opens is recognised by every
/// page: the login page then sends the visitor on to the main page.
pub proof fn passed_captcha_opens_a_recognised_session(
    sessions: Map<Seq<char>, i128>,
    now: i128,
    login_template: Seq<char>,
)
    ensures
        pages::session_active(sessions.insert(pages::session_id_at(now), now), Some(pages::session_id_at(now))),
        pages::login_page_reply(
            sessions.insert(pages::session_id_at(now), now),
            Some(pages::session_id_at(now)),
            login_template,
        ) == (ReplyView::Redirect { to: Target::Main, session: None }),
{
}


/// `c` is one of the ten decimal digits.
pub open spec fn is_digit(c: char) -> bool {
    48 <= (c as u32) <= 57
}

/// `s` is a number written in decimal the way `Display` writes it: at least
/// one digit, only digits, and no leading zero unless it is the only digit.
pub open spec fn is_decimal_notation(s: Seq<char>) -> bool {
    &&& s.len() > 0
    &&& forall|i: int| 0 <= i < s.len() ==> is_digit(#[trigger] s[i])
    &&& s.len() > 1 ==> s[0] != '0'
}

proof fn lemma_decimal_first(n: nat)
    requires
        n >= 1,
    ensures
        text::decimal(n)[0] != '0',
    decreases n,
{
    if n >= 10 {
        lemma_decimal_first(n / 10);
        assert(text::decimal(n)[0] == text::decimal(n / 10)[0]);
    }
}

/// The decimal notation of any number is a well-formed decimal numeral
/// that reads back to the number.
pub proof fn decimal_is_canonical(n: nat)
    ensures
        is_decimal_notation(text::decimal(n)),
        decimal_value(text::decimal(n)) == n,
    decreases n,
{
    decimal_reads_back(n);
    if n >= 10 {
        decimal_is_canonical(n / 10);
        lemma_decimal_first(n / 10);
        let s = text::decimal(n);
        let p = text::decimal(n / 10);
        assert(s == p.push(text::digit_char(n % 10)));
        assert forall|i: int| 0 <= i < s.len() implies is_digit(#[trigger] s[i]) by {
            if i < p.len() {
                assert(s[i] == p[i]);
            }
        }
        assert(s[0] == p[0]);
    }
}

/// Whenever the main page is shown, its body is the page's head text, then
/// a decimal numeral that reads back to the number of open sessions, then
/// the page's tail text.
pub proof fn main_page_shows_the_session_count(
    sessions: Map<Seq<char>, i128>,
    session_cookie: Option<Seq<char>>,
)
    requires
        pages::session_active(sessions, session_cookie),
    ensures
        ({
            let r = pages::main_page_reply(sessions, session_cookie);
            let h = pages::MAIN_PAGE_HEAD@.len() as int;
            let t = pages::MAIN_PAGE_TAIL@.len() as int;
            &&& r is Content
            &&& r->status == Status::Success
            &&& r->content_type == ContentType::Html
            &&& r->body.len() >= h + t
            &&& r->body.subrange(0, h) == pages::MAIN_PAGE_HEAD@
            &&& r->body.subrange(r->body.len() - t, r->body.len() as int) == pages::MAIN_PAGE_TAIL@
            &&& is_decimal_notation(r->body.subrange(h, r->body.len() - t))
            &&& decimal_value(r->body.subrange(h, r->body.len() - t)) == sessions.len()
        }),
{
    let n = sessions.len();
    decimal_is_canonical(n);
    let body = pages::main_page_reply(sessions, session_cookie)->body;
    let h = pages::MAIN_PAGE_HEAD@.len() as int;
    let t = pages::MAIN_PAGE_TAIL@.len() as int;
    let d = text::decimal(n);
    assert(body == pages::MAIN_PAGE_HEAD@ + d + pages::MAIN_PAGE_TAIL@);
    assert(body.subrange(0, h) =~= pages::MAIN_PAGE_HEAD@);
    assert(body.subrange(body.len() - t, body.len() as int) =~= pages::MAIN_PAGE_TAIL@);
    assert(body.subrange(h, body.len() - t) =~= d);
}

/// The id that a login opens after the UNIX epoch is a decimal numeral that
/// reads back to the whole seconds elapsed since the epoch; so is the id of
/// a session opened by a right captcha answer.
pub proof fn session_ids_count_seconds(now: i128)
    requires
        now >= 0,
    ensures
        is_decimal_notation(pages::login_session_id(now)),
        decimal_value(pages::login_session_id(now)) == now / NANOS_PER_SEC,
        is_decimal_notation(pages::session_id_at(now)),
        decimal_value(pages::session_id_at(now)) == now / NANOS_PER_SEC,
{
    decimal_is_canonical((now / NANOS_PER_SEC) as nat);
}

/// Without an open session, the login page's body is the login template,
/// character for character, served as HTML with status 200.
pub proof fn login_page_serves_its_template(
    sessions: Map<Seq<char>, i128>,
    session_cookie: Option<Seq<char>>,
    template: Seq<char>,
)
    requires
        !pages::session_active(sessions, session_cookie),
    ensures
        pages::login_page_reply(sessions, session_cookie, template) is Content,
        pages::login_page_reply(sessions, session_cookie, template)->status == Status::Success,
        pages::login_page_reply(sessions, session_cookie, template)->content_type == ContentType::Html,
        pages::login_page_reply(sessions, session_cookie, template)->body.len() == template.len(),
        forall|i: int| 0 <= i < template.len()
            ==> #[trigger] pages::login_page_reply(sessions, session_cookie, template)->body[i] == template[i],
{
}

/// The not-found page's body is the not-found template, character for
/// character, served as HTML with status 404.
pub proof fn not_found_page_serves_its_template(template: Seq<char>)
    ensures
        pages::not_found_reply(template) is Content,
        pages::not_found_reply(template)->status == Status::NotFound,
        pages::not_found_reply(template)->content_type == ContentType::Html,
        pages::not_found_reply(template)->body.len() == template.len(),
        forall|i: int| 0 <= i < template.len() ==> #[trigger] pages::not_found_reply(template)->body[i] == template[i],
{
}


/// `pat` occurs in `s` at position `k`.
pub open spec fn occurs_at(s: Seq<char>, pat: Seq<char>, k: int) -> bool {
    0 <= k && k + pat.len() <= s.len() && s.subrange(k, k + pat.len()) == pat
}

proof fn lemma_occurs_shift(s: Seq<char>, pat: Seq<char>, d: int, k: int)
    requires
        0 <= d <= s.len(),
        0 <= k,
    ensures
        occurs_at(s.skip(d), pat, k) <==> occurs_at(s, pat, k + d),
{
    if k + pat.len() <= s.len() - d {
        assert(s.skip(d).subrange(k, k + pat.len()) =~= s.subrange(k + d, k + d + pat.len()));
    }
}

/// Text in which the pattern does not occur comes back unchanged.
pub proof fn replace_leaves_text_without_the_pattern(s: Seq<char>, pat: Seq<char>, rep: Seq<char>)
    requires
        pat.len() > 0,
        forall|k: int| !occurs_at(s, pat, k),
    ensures
        text::replace_all(s, pat, rep) == s,
    decreases s.len(),
{
    if s.len() >= pat.len() {
        assert(!occurs_at(s, pat, 0));
        assert forall|k: int| !occurs_at(s.skip(1), pat, k) by {
            if k >= 0 {
                lemma_occurs_shift(s, pat, 1, k);
            }
        }
        replace_leaves_text_without_the_pattern(s.skip(1), pat, rep);
        assert(seq![s[0]] + s.skip(1) =~= s);
    }
}

/// The pattern alone is replaced by the replacement.
pub proof fn replace_turns_the_pattern_into_the_replacement(pat: Seq<char>, rep: Seq<char>)
    requires
        pat.len() > 0,
    ensures
        text::replace_all(pat, pat, rep) == rep,
{
    assert(pat.subrange(0, pat.len() as int) =~= pat);
    assert(pat.skip(pat.len() as int) =~= Seq::<char>::empty());
    assert(text::replace_all(Seq::<char>::empty(), pat, rep) == Seq::<char>::empty());
    assert(rep + Seq::<char>::empty() =~= rep);
}

/// Replacing works piece by piece: when no occurrence of the pattern
/// straddles the boundary between `x` and `y`, replacing in `x + y` is
/// replacing in `x`, then in `y`.
pub proof fn replace_splits_at_a_clean_boundary(x: Seq<char>, y: Seq<char>, pat: Seq<char>, rep: Seq<char>)
    requires
        pat.len() > 0,
        forall|k: int| 0 <= k < x.len() < k + pat.len() ==> !#[trigger] occurs_at(x + y, pat, k),
    ensures
        text::replace_all(x + y, pat, rep) == text::replace_all(x, pat, rep) + text::replace_all(y, pat, rep),
    decreases x.len(),
{
    let m = pat.len() as int;
    let z = x + y;
    if x.len() == 0 {
        assert(z =~= y);
        assert(text::replace_all(x, pat, rep) == x);
        assert(x + text::replace_all(y, pat, rep) =~= text::replace_all(y, pat, rep));
    } else if z.len() < m {
        assert(text::replace_all(x, pat, rep) == x);
        assert(text::replace_all(y, pat, rep) == y);
    } else if z.subrange(0, m) == pat {
        if x.len() < m {
            assert(occurs_at(z, pat, 0));
            assert(false);
        }
        assert(x.subrange(0, m) =~= z.subrange(0, m));
        let x1 = x.skip(m);
        assert(z.skip(m) =~= x1 + y);
        assert forall|k: int| 0 <= k < x1.len() < k + pat.len() implies !#[trigger] occurs_at(x1 + y, pat, k) by {
            lemma_occurs_shift(z, pat, m, k);
            assert(!occurs_at(z, pat, k + m));
        }
        replace_splits_at_a_clean_boundary(x1, y, pat, rep);
        assert(rep + (text::replace_all(x1, pat, rep) + text::replace_all(y, pat, rep))
            =~= (rep + text::replace_all(x1, pat, rep)) + text::replace_all(y, pat, rep));
    } else {
        let x1 = x.skip(1);
        assert(z.skip(1) =~= x1 + y);
        assert(z[0] == x[0]);
        assert forall|k: int| 0 <= k < x1.len() < k + pat.len() implies !#[trigger] occurs_at(x1 + y, pat, k) by {
            lemma_occurs_shift(z, pat, 1, k);
            assert(!occurs_at(z, pat, k + 1));
        }
        replace_splits_at_a_clean_boundary(x1, y, pat, rep);
        if x.len() < m {
            assert(text::replace_all(x, pat, rep) == x);
            assert(text::replace_all(x1, pat, rep) == x1);
            assert(seq![x[0]] + x1 =~= x);
            assert(seq![x[0]] + (x1 + text::replace_all(y, pat, rep))
                =~= x + text::replace_all(y, pat, rep));
        } else {
            assert(x.subrange(0, m) =~= z.subrange(0, m));
            assert(seq![x[0]] + (text::replace_all(x1, pat, rep) + text::replace_all(y, pat, rep))
                =~= (seq![x[0]] + text::replace_all(x1, pat, rep)) + text::replace_all(y, pat, rep));
        }
    }
}


proof fn lemma_occurrence_chars(s: Seq<char>, pat: Seq<char>, k: int)
    requires
        occurs_at(s, pat, k),
    ensures
        forall|j: int| 0 <= j < pat.len() ==> s[k + j] == #[trigger] pat[j],
{
    assert forall|j: int| 0 <= j < pat.len() implies s[k + j] == #[trigger] pat[j] by {
        assert(s.subrange(k, k + pat.len())[j] == s[k + j]);
    }
}

/// A prefix `x` in which no occurrence of the pattern starts is kept as it
/// is, and replacing goes on in the rest.
proof fn lemma_replace_after_prefix(x: Seq<char>, y: Seq<char>, pat: Seq<char>, rep: Seq<char>)
    requires
        pat.len() > 0,
        forall|k: int| 0 <= k < x.len() ==> !#[trigger] occurs_at(x + y, pat, k),
    ensures
        text::replace_all(x + y, pat, rep) == x + text::replace_all(y, pat, rep),
{
    assert forall|k: int| 0 <= k < x.len() < k + pat.len() implies !#[trigger] occurs_at(x + y, pat, k) by {}
    replace_splits_at_a_clean_boundary(x, y, pat, rep);
    assert forall|k: int| !occurs_at(x, pat, k) by {
        if occurs_at(x, pat, k) {
            assert((x + y).subrange(k, k + pat.len()) =~= x.subrange(k, k + pat.len()));
            assert(occurs_at(x + y, pat, k));
        }
    }
    replace_leaves_text_without_the_pattern(x, pat, rep);
}

/// `s` holds no opening brace.
pub open spec fn brace_free(s: Seq<char>) -> bool {
    forall|i: int| 0 <= i < s.len() ==> #[trigger] s[i] != '{'
}

proof fn lemma_brace_free_prefix(x: Seq<char>, y: Seq<char>, pat: Seq<char>, rep: Seq<char>)
    requires
        pat.len() > 0,
        pat[0] == '{',
        brace_free(x),
    ensures
        text::replace_all(x + y, pat, rep) == x + text::replace_all(y, pat, rep),
{
    assert forall|k: int| 0 <= k < x.len() implies !#[trigger] occurs_at(x + y, pat, k) by {
        if occurs_at(x + y, pat, k) {
            lemma_occurrence_chars(x + y, pat, k);
            assert((x + y)[k + 0] == pat[0]);
            assert((x + y)[k] == x[k]);
        }
    }
    lemma_replace_after_prefix(x, y, pat, rep);
}

proof fn lemma_decimal_brace_free(n: nat)
    ensures
        brace_free(text::decimal(n)),
{
    decimal_is_canonical(n);
    assert forall|i: int| 0 <= i < text::decimal(n).len() implies #[trigger] text::decimal(n)[i] != '{' by {
        assert(is_digit(text::decimal(n)[i]));
    }
}

proof fn lemma_placeholder_strs()
    ensures
        "{{ a }}"@ == seq!['{', '{', ' ', 'a', ' ', '}', '}'],
        "{{ b }}"@ == seq!['{', '{', ' ', 'b', ' ', '}', '}'],
        "{{ sum }}"@ == seq!['{', '{', ' ', 's', 'u', 'm', ' ', '}', '}'],
{
    reveal_strlit("{{ a }}");
    reveal_strlit("{{ b }}");
    reveal_strlit("{{ sum }}");
    assert("{{ a }}"@ =~= seq!['{', '{', ' ', 'a', ' ', '}', '}']);
    assert("{{ b }}"@ =~= seq!['{', '{', ' ', 'b', ' ', '}', '}']);
    assert("{{ sum }}"@ =~= seq!['{', '{', ' ', 's', 'u', 'm', ' ', '}', '}']);
}

/// The placeholder `p` at the front of `p + y` is no occurrence of another
/// placeholder `q`, nor does one start inside it.
proof fn lemma_other_placeholder(p: Seq<char>, q: Seq<char>, y: Seq<char>, rep: Seq<char>)
    requires
        p.len() >= 7,
        q.len() >= 7,
        p[0] == '{' && p[1] == '{' && p[2] == ' ',
        q[0] == '{' && q[1] == '{' && q[2] == ' ',
        p[3] != q[3],
        forall|i: int| 2 <= i < p.len() ==> #[trigger] p[i] != '{',
    ensures
        text::replace_all(p + y, q, rep) == p + text::replace_all(y, q, rep),
{
    assert forall|k: int| 0 <= k < p.len() implies !#[trigger] occurs_at(p + y, q, k) by {
        if occurs_at(p + y, q, k) {
            lemma_occurrence_chars(p + y, q, k);
            assert((p + y)[k + 0] == q[0]);
            assert((p + y)[k + 1] == q[1]);
            assert((p + y)[k + 3] == q[3]);
            assert((p + y)[k] == p[k]);
            assert((p + y)[k + 1] == p[k + 1]);
            if k == 0 {
                assert((p + y)[3] == p[3]);
            }
        }
    }
    lemma_replace_after_prefix(p, y, q, rep);
}

/// The same placeholder at the front is replaced, and replacing goes on in
/// the rest.
proof fn lemma_same_placeholder(p: Seq<char>, y: Seq<char>, rep: Seq<char>)
    requires
        p.len() >= 7,
        p[0] == '{' && p[1] == '{' && p[2] == ' ',
        forall|i: int| 2 <= i < p.len() ==> #[trigger] p[i] != '{',
    ensures
        text::replace_all(p + y, p, rep) == rep + text::replace_all(y, p, rep),
{
    assert forall|k: int| 0 <= k < p.len() < k + p.len() implies !#[trigger] occurs_at(p + y, p, k) by {
        if occurs_at(p + y, p, k) {
            lemma_occurrence_chars(p + y, p, k);
            assert((p + y)[k + 0] == p[0]);
            assert((p + y)[k + 1] == p[1]);
            assert((p + y)[k] == p[k]);
            assert((p + y)[k + 1] == p[k + 1]);
        }
    }
    replace_splits_at_a_clean_boundary(p, y, p, rep);
    replace_turns_the_pattern_into_the_replacement(p, rep);
}

/// Text without an opening brace passes through the captcha page's
/// rendering unchanged.
pub proof fn captcha_keeps_plain_text(x: Seq<char>, y: Seq<char>, a: nat, b: nat)
    requires
        brace_free(x),
    ensures
        captcha::captcha_html(x + y, a, b) == x + captcha::captcha_html(y, a, b),
{
    lemma_placeholder_strs();
    let y1 = text::replace_all(y, "{{ a }}"@, text::decimal(a));
    let y2 = text::replace_all(y1, "{{ b }}"@, text::decimal(b));
    lemma_brace_free_prefix(x, y, "{{ a }}"@, text::decimal(a));
    lemma_brace_free_prefix(x, y1, "{{ b }}"@, text::decimal(b));
    lemma_brace_free_prefix(x, y2, "{{ sum }}"@, text::decimal(a + b));
}

/// Each placeholder at the front of the captcha template becomes its
/// number in decimal: `{{ a }}` the first addend, `{{ b }}` the second and
/// `{{ sum }}` their sum; the rest of the template is rendered as usual.
pub proof fn captcha_fills_each_placeholder(y: Seq<char>, a: nat, b: nat)
    ensures
        captcha::captcha_html("{{ a }}"@ + y, a, b) == text::decimal(a) + captcha::captcha_html(y, a, b),
        captcha::captcha_html("{{ b }}"@ + y, a, b) == text::decimal(b) + captcha::captcha_html(y, a, b),
        captcha::captcha_html("{{ sum }}"@ + y, a, b) == text::decimal(a + b) + captcha::captcha_html(y, a, b),
{
    lemma_placeholder_strs();
    let pa = "{{ a }}"@;
    let pb = "{{ b }}"@;
    let ps = "{{ sum }}"@;
    let da = text::decimal(a);
    let db = text::decimal(b);
    let ds = text::decimal(a + b);
    lemma_decimal_brace_free(a);
    lemma_decimal_brace_free(b);
    lemma_decimal_brace_free(a + b);
    let y1 = text::replace_all(y, pa, da);
    let y2 = text::replace_all(y1, pb, db);
    // `{{ a }}` first
    lemma_same_placeholder(pa, y, da);
    lemma_brace_free_prefix(da, y1, pb, db);
    lemma_brace_free_prefix(da, y2, ps, ds);
    // `{{ b }}` first
    lemma_other_placeholder(pb, pa, y, da);
    lemma_same_placeholder(pb, y1, db);
    lemma_brace_free_prefix(db, y2, ps, ds);
    // `{{ sum }}` first
    lemma_other_placeholder(ps, pa, y, da);
    lemma_other_placeholder(ps, pb, y1, db);
    lemma_same_placeholder(ps, y2, ds);
}

} // verus!

use captcha_gate::captcha::{
    captcha_page, captcha_page_for, check_captcha_answer, new_captcha, render_captcha, validate_captcha, Captcha,
};
use captcha_gate::logging::{log_access, log_not_found};
use captcha_gate::pages::{
    has_active_session, login, login_page, main_page, not_found_page, ping, session_id_for, status,
};
use captcha_gate::reply::{
    session_cookie_name, session_cookie_path, ContentType, Reply, Status, Target, SESSION_COOKIE_HTTP_ONLY,
    SESSION_COOKIE_MAX_AGE_SECS,
};
use captcha_gate::session::{
    session_is_live, track_session, SessionStore, NANOS_PER_SEC, SESSION_TIMEOUT_SECS,
};
use captcha_gate::text::{chars_of, replace, u128_to_decimal, u64_to_decimal};

const SEC: i128 = 1_000_000_000;

fn s(x: &str) -> String {
    x.to_string()
}

fn body_of(r: &Reply) -> (Status, ContentType, String) {
    match r {
        Reply::Content { status, content_type, body } => (*status, *content_type, body.clone()),
        Reply::Redirect { .. } => panic!("expected a page, got {:?}", r),
    }
}

fn redirect_of(r: &Reply) -> (Target, Option<String>) {
    match r {
        Reply::Redirect { to, session } => (*to, session.clone()),
        Reply::Content { .. } => panic!("expected a redirect, got {:?}", r),
    }
}

fn expected_main_page(online_users: usize) -> String {
    format!(
        r#"
                <!DOCTYPE html>
                <html lang="pt-br">
                <head>
                    <meta charset="UTF-8">
                    <meta name="viewport" content="width=device-width, initial-scale=1.0">
                    <title>Página Principal</title>
                    <style>
                        body {{
                            font-family: Arial, sans-serif;
                            text-align: center;
                            background-color: #f0f0f0;
                            display: flex;
                            justify-content: center;
                            align-items: center;
                            height: 100vh;
                        }}
                        .container {{
                            background-color: white;
                            padding: 20px;
                            border-radius: 10px;
                            box-shadow: 0 2px 10px rgba(0, 0, 0, 0.1);
                        }}
                        h1 {{
                            color: #333;
                        }}
                        p {{
                            font-size: 18px;
                        }}
                    </style>
                </head>
                <body>
                    <div class="container">
                        <h1>Bem-vindo à Página Principal!</h1>
                        <p>Usuários online: {}</p>
                    </div>
                </body>
                </html>
                "#,
        online_users
    )
}

#[test]
fn decimal_notation() {
    assert_eq!(u64_to_decimal(0), "0");
    assert_eq!(u64_to_decimal(7), "7");
    assert_eq!(u64_to_decimal(42), "42");
    assert_eq!(u64_to_decimal(1_000), "1000");
    assert_eq!(u64_to_decimal(u64::MAX), u64::MAX.to_string());
    assert_eq!(u128_to_decimal(u128::MAX), u128::MAX.to_string());
    for n in [1u64, 9, 10, 99, 100, 1_700_000_000, 123_456_789_012] {
        assert_eq!(u64_to_decimal(n), n.to_string());
    }
}

#[test]
fn chars_in_order() {
    assert_eq!(chars_of("pão"), vec!['p', 'ã', 'o']);
    assert_eq!(chars_of(""), Vec::<char>::new());
}

#[test]
fn replace_agrees_with_str_replace() {
    let cases = [
        ("a {{ a }} b {{ a }}", "{{ a }}", "5"),
        ("aaa", "aa", "b"),
        ("no placeholder here", "{{ a }}", "9"),
        ("{{ a }}", "{{ a }}", ""),
        ("Usuários: {{ sum }}!", "{{ sum }}", "18"),
        ("abab", "ab", "abab"),
        ("", "x", "y"),
    ];
    for (text, pat, rep) in cases {
        assert_eq!(replace(text, pat, rep), text.replace(pat, rep), "{:?}", (text, pat, rep));
    }
    assert_eq!(replace("aaa", "aa", "b"), "ba");
}

#[test]
fn empty_store() {
    let store = SessionStore::new();
    assert_eq!(store.len(), 0);
    assert!(!store.contains(&s("1")));
}

#[test]
fn touch_opens_and_refreshes() {
    let mut store = SessionStore::new();
    store.touch(s("100"), 5 * SEC);
    store.touch(s("200"), 6 * SEC);
    store.touch(s("100"), 7 * SEC);
    assert_eq!(store.len(), 2);
    assert!(store.contains(&s("100")));
    assert!(store.contains(&s("200")));
    assert!(!store.contains(&s("300")));
    // The refreshed session survives a purge that closes the other one.
    store.purge_expired(7 * SEC + 300 * SEC - 1);
    assert!(store.contains(&s("100")));
    store.purge_expired(6 * SEC + 300 * SEC);
    assert!(!store.contains(&s("200")));
    assert_eq!(store.len(), 1);
}

#[test]
fn timeout_boundary() {
    assert_eq!(SESSION_TIMEOUT_SECS, 300);
    assert_eq!(NANOS_PER_SEC, SEC);
    let t = 1_000 * SEC;
    assert!(session_is_live(t, t));
    assert!(session_is_live(t, t + 299 * SEC));
    assert!(session_is_live(t, t + 300 * SEC - 1));
    assert!(!session_is_live(t, t + 300 * SEC));
    assert!(!session_is_live(t, t + 10_000 * SEC));
    // A last access after `now` counts as no time passed.
    assert!(session_is_live(t + 5_000 * SEC, t));
    // Instants before the epoch age like any other.
    assert!(!session_is_live(-5 * SEC, 298 * SEC));
    assert!(session_is_live(-5 * SEC, 294 * SEC));
    // Extreme instants do not overflow.
    assert!(session_is_live(i128::MAX - 1, i128::MAX));
    assert!(!session_is_live(i128::MIN, i128::MAX));
}

#[test]
fn purge_keeps_only_live_sessions() {
    let mut store = SessionStore::new();
    store.touch(s("a"), 0);
    store.touch(s("b"), 100 * SEC);
    store.touch(s("c"), 200 * SEC);
    store.touch(s("d"), 900 * SEC);
    store.purge_expired(400 * SEC);
    assert!(!store.contains(&s("a")));
    assert!(!store.contains(&s("b")));
    assert!(store.contains(&s("c")));
    assert!(store.contains(&s("d")));
    assert_eq!(store.len(), 2);
    store.purge_expired(400 * SEC);
    assert_eq!(store.len(), 2);
}

#[test]
fn tracking_a_request() {
    let mut store = SessionStore::new();
    store.touch(s("old"), 0);
    store.touch(s("other"), 100 * SEC);
    track_session(&mut store, None, 1_000 * SEC);
    assert_eq!(store.len(), 2);
    track_session(&mut store, Some(&s("mine")), 350 * SEC);
    assert!(store.contains(&s("mine")));
    assert!(!store.contains(&s("old")));
    assert!(store.contains(&s("other")));
    assert_eq!(store.len(), 2);
    track_session(&mut store, Some(&s("mine")), 500 * SEC);
    assert!(store.contains(&s("mine")));
    assert!(!store.contains(&s("other")));
    assert_eq!(store.len(), 1);
}

#[test]
fn session_ids_are_seconds() {
    assert_eq!(session_id_for(1_700_000_000 * SEC + 999_999_999), "1700000000");
    assert_eq!(session_id_for(0), "0");
    assert_ne!(session_id_for(5 * SEC), session_id_for(6 * SEC));
    assert_eq!(session_id_for(5 * SEC), session_id_for(5 * SEC + 10));
}

#[test]
fn ping_answers() {
    let mut store = SessionStore::new();
    store.touch(s("42"), 0);
    let (st, ct, body) = body_of(&ping(&store, Some(&s("42"))));
    assert_eq!((st, ct, body.as_str()), (Status::Success, ContentType::Unset, "pong"));
    let (st, ct, body) = body_of(&ping(&store, Some(&s("43"))));
    assert_eq!((st, ct, body.as_str()), (Status::Unauthorized, ContentType::Unset, "Não autorizado."));
    let (st, _, _) = body_of(&ping(&store, None));
    assert_eq!(st, Status::Unauthorized);
}

#[test]
fn status_answers() {
    let mut store = SessionStore::new();
    store.touch(s("42"), 0);
    let (st, ct, body) = body_of(&status(&store, Some(&s("42"))));
    assert_eq!((st, ct, body.as_str()), (Status::Success, ContentType::PlainText, "Usuário está online."));
    let (st, ct, body) = body_of(&status(&store, None));
    assert_eq!((st, ct, body.as_str()), (Status::Success, ContentType::PlainText, "Usuário está offline."));
    let (_, _, body) = body_of(&status(&store, Some(&s("x"))));
    assert_eq!(body, "Usuário está offline.");
}

#[test]
fn main_page_answers() {
    let mut store = SessionStore::new();
    assert_eq!(redirect_of(&main_page(&store, Some(&s("1")))), (Target::Login, None));
    store.touch(s("1"), 0);
    store.touch(s("2"), 0);
    store.touch(s("3"), 0);
    let (st, ct, body) = body_of(&main_page(&store, Some(&s("2"))));
    assert_eq!((st, ct), (Status::Success, ContentType::Html));
    assert_eq!(body, expected_main_page(3));
    assert!(body.contains("<p>Usuários online: 3</p>"));
    assert_eq!(redirect_of(&main_page(&store, None)), (Target::Login, None));
}

#[test]
fn login_page_answers() {
    let mut store = SessionStore::new();
    let (st, ct, body) = body_of(&login_page(&store, None, "<form>login</form>"));
    assert_eq!((st, ct, body.as_str()), (Status::Success, ContentType::Html, "<form>login</form>"));
    store.touch(s("9"), 0);
    assert_eq!(redirect_of(&login_page(&store, Some(&s("9")), "x")), (Target::Main, None));
    let (_, _, body) = body_of(&login_page(&store, Some(&s("8")), "x"));
    assert_eq!(body, "x");
}

#[test]
fn login_opens_session() {
    let mut store = SessionStore::new();
    let r = login(&mut store, 1_700_000_123 * SEC + 5);
    assert_eq!(redirect_of(&r), (Target::Main, Some(s("1700000123"))));
    assert!(store.contains(&s("1700000123")));
    let r = login(&mut store, -5 * SEC);
    assert_eq!(redirect_of(&r), (Target::Main, Some(s("0"))));
    assert!(store.contains(&s("0")));
    assert_eq!(store.len(), 2);
    // The same second gives the same session.
    login(&mut store, 1_700_000_123 * SEC + 900);
    assert_eq!(store.len(), 2);
}

#[test]
fn login_then_ping() {
    let mut store = SessionStore::new();
    let (_, id) = redirect_of(&login(&mut store, 77 * SEC));
    let id = id.unwrap();
    let (_, _, body) = body_of(&ping(&store, Some(&id)));
    assert_eq!(body, "pong");
    assert!(has_active_session(&store, Some(&id)));
    assert!(!has_active_session(&store, None));
}

#[test]
fn not_found_answers() {
    let (st, ct, body) = body_of(&not_found_page("<h1>404</h1>"));
    assert_eq!((st, ct, body.as_str()), (Status::NotFound, ContentType::Html, "<h1>404</h1>"));
}

#[test]
fn captcha_rendering() {
    let t = "<p>{{ a }} + {{ b }} = ?</p><input name=\"captcha_value\" value=\"{{ sum }}\"> {{ a }}";
    let html = render_captcha(t, Captcha { a: 3, b: 4 });
    assert_eq!(html, "<p>3 + 4 = ?</p><input name=\"captcha_value\" value=\"7\"> 3");
    let html = render_captcha(t, Captcha { a: 9, b: 9 });
    assert!(html.contains("value=\"18\""));
    assert_eq!(render_captcha("plain", Captcha { a: 1, b: 2 }), "plain");
}

#[test]
fn captcha_page_for_answers() {
    let mut store = SessionStore::new();
    let (st, ct, body) = body_of(&captcha_page_for(&store, None, "{{ a }}+{{ b }}={{ sum }}", Captcha { a: 2, b: 5 }));
    assert_eq!((st, ct, body.as_str()), (Status::Success, ContentType::Html, "2+5=7"));
    store.touch(s("s"), 0);
    assert_eq!(
        redirect_of(&captcha_page_for(&store, Some(&s("s")), "t", Captcha { a: 2, b: 5 })),
        (Target::Login, None)
    );
}

#[test]
fn captcha_page_draws_digits() {
    let store = SessionStore::new();
    let mut seen_other_than_one = false;
    for _ in 0..200 {
        let (_, _, body) = body_of(&captcha_page(&store, None, "{{ a }}+{{ b }}={{ sum }}"));
        let parts: Vec<&str> = body.split(|c| c == '+' || c == '=').collect();
        let a: u32 = parts[0].parse().unwrap();
        let b: u32 = parts[1].parse().unwrap();
        let sum: u32 = parts[2].parse().unwrap();
        assert!((1..10).contains(&a) && (1..10).contains(&b));
        assert_eq!(sum, a + b);
        if a != 1 || b != 1 {
            seen_other_than_one = true;
        }
    }
    assert!(seen_other_than_one);
    let mut store = SessionStore::new();
    store.touch(s("k"), 0);
    assert_eq!(redirect_of(&captcha_page(&store, Some(&s("k")), "t")), (Target::Login, None));
}

#[test]
fn new_captcha_in_range() {
    let mut values = std::collections::HashSet::new();
    for _ in 0..300 {
        let c = new_captcha();
        assert!((1..10).contains(&c.a) && (1..10).contains(&c.b));
        values.insert(c.a);
    }
    assert!(values.len() > 1);
}

#[test]
fn captcha_answers() {
    assert!(check_captcha_answer(Some(&s("7")), Some(&s("7"))));
    assert!(!check_captcha_answer(Some(&s("7")), Some(&s("8"))));
    assert!(!check_captcha_answer(None, None));
    assert!(check_captcha_answer(None, Some(&s("0"))));
    assert!(check_captcha_answer(Some(&s("")), None));
    assert!(!check_captcha_answer(Some(&s("7")), None));
}

#[test]
fn validate_captcha_right_answer() {
    let mut store = SessionStore::new();
    let now = 1_700_000_500 * SEC + 42;
    let r = validate_captcha(&mut store, Some(&s("12")), Some(&s("12")), now);
    assert_eq!(redirect_of(&r), (Target::Login, Some(s("1700000500"))));
    assert!(store.contains(&s("1700000500")));
    assert_eq!(store.len(), 1);
    // The new session is recognised: the login page sends on to /main.
    assert_eq!(redirect_of(&login_page(&store, Some(&s("1700000500")), "x")), (Target::Main, None));
}

#[test]
fn validate_captcha_wrong_answer() {
    let mut store = SessionStore::new();
    // A wrong answer is refused whatever the clock reads.
    let r = validate_captcha(&mut store, Some(&s("12")), Some(&s("13")), -5 * SEC);
    assert_eq!(redirect_of(&r), (Target::Captcha, None));
    let r = validate_captcha(&mut store, Some(&s("12")), Some(&s("13")), 5 * SEC);
    assert_eq!(redirect_of(&r), (Target::Captcha, None));
    assert_eq!(store.len(), 0);
    let r = validate_captcha(&mut store, None, None, 5 * SEC);
    assert_eq!(redirect_of(&r), (Target::Captcha, None));
    assert_eq!(store.len(), 0);
}

#[test]
fn pages_agree() {
    let mut store = SessionStore::new();
    store.touch(s("on"), 0);
    for cookie in [Some(s("on")), Some(s("off")), None] {
        let active = has_active_session(&store, cookie.as_ref());
        let (_, _, ping_body) = body_of(&ping(&store, cookie.as_ref()));
        let (_, _, status_body) = body_of(&status(&store, cookie.as_ref()));
        assert_eq!(active, ping_body == "pong");
        assert_eq!(active, status_body == "Usuário está online.");
        assert_eq!(active, matches!(main_page(&store, cookie.as_ref()), Reply::Content { .. }));
        assert_eq!(active, matches!(login_page(&store, cookie.as_ref(), "t"), Reply::Redirect { .. }));
        assert_eq!(active, matches!(captcha_page(&store, cookie.as_ref(), "t"), Reply::Redirect { .. }));
    }
}

#[test]
fn targets_and_cookie() {
    assert_eq!(Target::Captcha.path(), "/");
    assert_eq!(Target::Login.path(), "/login");
    assert_eq!(Target::Main.path(), "/main");
    assert_eq!(session_cookie_name(), "session_id");
    assert_eq!(SESSION_COOKIE_MAX_AGE_SECS, 300);
    assert_eq!(session_cookie_path(), "/");
    assert!(SESSION_COOKIE_HTTP_ONLY);
}

#[test]
fn log_lines() {
    assert_eq!(
        log_access("login", Some("10.0.0.1"), "2024-01-02 03:04:05"),
        Some(s("Ação: login | IP: 10.0.0.1 | Horário: 2024-01-02 03:04:05"))
    );
    assert_eq!(log_access("login", None, "t"), None);
    assert_eq!(
        log_not_found(Some("10.0.0.2"), "/nope", "2024-01-02 03:04:05"),
        Some(s("Erro 404: Rota não encontrada | IP: 10.0.0.2 | Rota: /nope | Horário: 2024-01-02 03:04:05"))
    );
    assert_eq!(log_not_found(None, "/nope", "t"), None);
}

#[test]
fn login_adds_one_user_to_the_main_page() {
    let mut store = SessionStore::new();
    store.touch(s("a"), 0);
    store.touch(s("b"), 0);
    let (_, id) = redirect_of(&login(&mut store, 1_000 * SEC));
    let (_, _, body) = body_of(&main_page(&store, id.as_ref()));
    assert!(body.contains("<p>Usuários online: 3</p>"));
    // A second login in the same second opens no new session.
    let (_, id) = redirect_of(&login(&mut store, 1_000 * SEC + 7));
    let (_, _, body) = body_of(&main_page(&store, id.as_ref()));
    assert!(body.contains("<p>Usuários online: 3</p>"));
}

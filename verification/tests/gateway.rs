//! The gateway: its addresses, its requests, its responses, its tokens.

use diesellynk::auth::tech_login;
use diesellynk::guac::{
    answer_from_member, connection_id_of, guac_config, guac_token, guac_token_request,
    revocation_of, revocation_token, token_in, GuacAnswer, TokenOutcome,
};
use diesellynk::http::{
    address_of, delete_request_of, delete_target_of, get_client_ip, is_readable, post_request_of,
    post_target_of, read_response, response_body,
};
use diesellynk::json::{read_member, texts_from_json, texts_to_json, Member};
use diesellynk::model::{Org, TechSession};
use diesellynk::reply::Status;
use diesellynk::table::Table;

const NOW: u64 = 1_700_000_000;

fn text(s: &str) -> Option<String> {
    Some(s.to_string())
}

#[test]
fn an_address_is_taken_apart() {
    let t = post_target_of("https://guac.example.com/guacamole/api/tokens");
    assert!(t.https);
    assert_eq!((t.host.as_str(), t.port), ("guac.example.com", 443));
    assert_eq!(t.path, "/guacamole/api/tokens");
    assert_eq!(address_of(&t), "guac.example.com:443");
    let t = post_target_of("http://guac:8080/api");
    assert!(!t.https);
    assert_eq!((t.host.as_str(), t.port, t.path.as_str()), ("guac", 8080, "/api"));
    let t = post_target_of("guac");
    assert_eq!((t.host.as_str(), t.port, t.path.as_str()), ("guac", 80, "/"));
    let t = post_target_of("https://guac:99999/");
    assert_eq!((t.host.as_str(), t.port, t.path.as_str()), ("guac", 443, "/"));
    let t = post_target_of("http://guac:1:2/a:3");
    assert_eq!((t.host.as_str(), t.port, t.path.as_str()), ("guac", 1, "/a:3"));
}

#[test]
fn deleting_goes_to_the_plain_port() {
    let t = delete_target_of("https://guac.example.com/x/1");
    assert_eq!((t.host.as_str(), t.port), ("guac.example.com", 80));
    assert_eq!(t.path, "/x/1");
    assert_eq!(delete_target_of("https://g:8443/x").port, 8443);
}

#[test]
fn requests_are_written_out() {
    let t = post_target_of("http://guac:8080/api/tokens");
    assert_eq!(
        post_request_of(&t, "username=ü"),
        "POST /api/tokens HTTP/1.0\nHost: guac\n\
         Content-Type: application/x-www-form-urlencoded\n\
         Content-Length: 11\nConnection: close\n\nusername=ü"
    );
    let t = delete_target_of("http://guac:8080/c/1");
    assert_eq!(
        delete_request_of(&t, "TOK"),
        "DELETE /c/1 HTTP/1.0\nHost: guac\nGuacamole-Token: TOK\nConnection: close\n\n"
    );
}

#[test]
fn a_response_is_cut_behind_its_first_empty_line() {
    let r = read_response(b"HTTP/1.0 200 OK\nA: b\n\n\r\n{\"x\":1}");
    assert_eq!(r, Some(Ok("{\"x\":1}".to_string())));
    assert_eq!(read_response(b"a\n\n1234"), Some(Ok("34".to_string())));
    assert_eq!(read_response(b"a\n\n12"), Some(Ok(String::new())));
}

#[test]
fn a_response_without_an_empty_line_begins_at_a_brace() {
    let r = read_response(b"HTTP/1.1 200 OK\r\n\r\n{\"authToken\":\"T\"}");
    assert_eq!(r, Some(Ok("{\"authToken\":\"T\"}".to_string())));
}

#[test]
fn a_response_with_neither_is_unexpected() {
    assert_eq!(read_response(b"oops"), Some(Err("Unexpected response: oops".to_string())));
    assert_eq!(read_response(b""), Some(Err("Unexpected response: ".to_string())));
    let long = "x".repeat(150);
    let expected = format!("Unexpected response: {}", "x".repeat(100));
    assert_eq!(read_response(long.as_bytes()), Some(Err(expected)));
}

#[test]
fn a_response_that_cannot_be_cut_is_given_up() {
    assert_eq!(read_response(b"a\n\n1"), None);
    assert_eq!(read_response("a\n\n1é".as_bytes()), None);
    assert!(!is_readable("a\n\n1é"));
    assert!(is_readable("a\n\né"));
    let odd = format!("{}é", "x".repeat(99));
    assert!(!is_readable(&odd));
    assert_eq!(read_response(odd.as_bytes()), None);
}

#[test]
fn bytes_that_are_no_text_are_replaced() {
    let r = read_response(b"{\xff}");
    assert_eq!(r, Some(Ok("{\u{fffd}}".to_string())));
    assert_eq!(response_body("say {é}"), Ok("{é}".to_string()));
}

#[test]
fn the_client_is_the_first_forwarded_address() {
    assert_eq!(get_client_ip(Some(" 1.2.3.4 , 5.6.7.8")), "1.2.3.4");
    assert_eq!(get_client_ip(Some("1.2.3.4")), "1.2.3.4");
    assert_eq!(get_client_ip(Some("")), "");
    assert_eq!(get_client_ip(None), "unknown");
}

#[test]
fn settings_lead_to_the_gateway() {
    let c = guac_config(None, None, None);
    assert_eq!((c.base.as_str(), c.user.as_str(), c.password.as_str()), ("", "guacadmin", ""));
    let c = guac_config(text("http://g"), text("me"), text("pw"));
    assert_eq!((c.base.as_str(), c.user.as_str(), c.password.as_str()), ("http://g", "me", "pw"));
}

#[test]
fn a_desktop_address_leads_to_its_connection() {
    let url = "https://guac/guacamole/#/client/MQBjAHBvc3RncmVzcWw";
    assert_eq!(connection_id_of(url), text("1"));
    assert_eq!(connection_id_of(&format!("{}=", url)), text("1"));
    assert_eq!(connection_id_of("x/#/client/YWJj/#/client/zzz"), text("abc"));
    assert_eq!(connection_id_of("x/#/client/"), text(""));
    assert_eq!(connection_id_of("https://guac/other"), None);
    assert_eq!(connection_id_of(""), None);
    assert_eq!(connection_id_of("x/#/client//w=="), None);
}

#[test]
fn a_connection_is_revoked_where_the_gateway_is_known() {
    let url = "https://g/#/client/MQBjAHBvc3RncmVzcWw";
    let c = guac_config(text("https://g/guac//"), text("u"), text("p"));
    let r = revocation_of(url, &c).unwrap();
    assert_eq!(r.token_url, "https://g/guac/api/tokens");
    assert_eq!(r.token_body, "username=u&password=p");
    assert_eq!(r.delete_url, "https://g/guac/api/session/data/postgresql/connections/1");
    assert!(revocation_of("https://g/", &c).is_none());
    assert!(revocation_of(url, &guac_config(text("https://g"), None, None)).is_none());
    assert!(revocation_of(url, &guac_config(None, None, text("p"))).is_none());
}

#[test]
fn the_token_is_read_from_the_response() {
    assert_eq!(revocation_token("{\"authToken\":\"T\"}"), text("T"));
    assert_eq!(revocation_token("{\"authToken\":\"\"}"), text(""));
    assert_eq!(revocation_token("{\"authToken\":5}"), None);
    assert_eq!(revocation_token("{}"), None);
    assert_eq!(revocation_token("no json"), None);
    assert_eq!(token_in(Member::Text("t".to_string())), text("t"));
    assert_eq!(token_in(Member::Absent), None);
    assert_eq!(token_in(Member::NoDocument), None);
}

#[test]
fn members_are_read_from_documents() {
    assert!(matches!(read_member("{\"a\":\"b\"}", "a"), Member::Text(t) if t == "b"));
    assert!(matches!(read_member("{\"a\":\"b\"}", "b"), Member::Absent));
    assert!(matches!(read_member("{\"a\":null}", "a"), Member::Absent));
    assert!(matches!(read_member("[\"a\"]", "a"), Member::Absent));
    assert!(matches!(read_member("{\"a\":", "a"), Member::NoDocument));
    assert!(matches!(read_member("", "a"), Member::NoDocument));
}

#[test]
fn lists_of_texts_go_through_json() {
    let list = vec!["acme".to_string(), "a\"b".to_string(), "ü".to_string()];
    let written = texts_to_json(&list);
    assert_eq!(written, "[\"acme\",\"a\\\"b\",\"ü\"]");
    assert_eq!(texts_from_json(&written), list);
    assert_eq!(texts_to_json(&Vec::new()), "[]");
    assert_eq!(texts_to_json(&vec![String::new()]), "[\"\"]");
    let odd = vec!["\u{8}\t\n\u{c}\r\\/\u{1}\u{1f}\u{7f}".to_string()];
    assert_eq!(texts_to_json(&odd), "[\"\\b\\t\\n\\f\\r\\\\/\\u0001\\u001f\u{7f}\"]");
    assert_eq!(texts_from_json(&texts_to_json(&odd)), odd);
    assert!(texts_from_json("[]").is_empty());
    assert!(texts_from_json("").is_empty());
    assert!(texts_from_json("[1]").is_empty());
}

fn logged_in() -> (Table<TechSession>, String) {
    let mut orgs: Table<Org> = Table::new();
    orgs.insert(
        "acme".to_string(),
        Org {
            password: "p".to_string(),
            display_name: "Acme".to_string(),
            is_diesellynk: false,
        },
    );
    let mut techs = Table::new();
    let token = tech_login(&orgs, &mut techs, "acme", "p", 7, NOW).unwrap().tech_auth_token;
    (techs, token)
}

#[test]
fn the_gateway_is_asked_for_technicians_only() {
    let (techs, token) = logged_in();
    let c = guac_config(text("http://g/"), None, text("pw"));
    let ask = guac_token_request(&techs, Some(&token), &c, NOW).unwrap();
    assert_eq!(ask.url, "http://g/api/tokens");
    assert_eq!(ask.body, "username=guacadmin&password=pw");
    for (t, at) in [(None, NOW), (Some("x"), NOW), (Some(token.as_str()), NOW + 28800)] {
        match guac_token_request(&techs, t, &c, at) {
            Err(GuacAnswer::Refused(r)) => {
                assert_eq!(r.status, Status::Unauthorized);
                assert_eq!(r.body.message, "Please log in first");
            }
            other => panic!("{:?}", other),
        }
    }
}

#[test]
fn a_gateway_that_is_not_configured_is_not_asked() {
    let (techs, token) = logged_in();
    for c in [
        guac_config(None, None, None),
        guac_config(text("http://g"), None, None),
        guac_config(None, None, text("pw")),
        guac_config(text("http://g"), None, text("")),
    ] {
        match guac_token_request(&techs, Some(&token), &c, NOW) {
            Err(GuacAnswer::Failed(m)) => assert_eq!(m, "Guacamole not configured on server"),
            other => panic!("{:?}", other),
        }
    }
}

fn failure(a: GuacAnswer) -> String {
    match a {
        GuacAnswer::Failed(m) => m,
        other => panic!("{:?}", other),
    }
}

#[test]
fn the_token_is_handed_on() {
    let r = TokenOutcome::Responded("{\"authToken\":\"T\",\"username\":\"u\"}".to_string());
    match guac_token(r, "http://g/") {
        GuacAnswer::Granted { token, guac_url } => {
            assert_eq!((token.as_str(), guac_url.as_str()), ("T", "http://g/"));
        }
        other => panic!("{:?}", other),
    }
    match answer_from_member(Member::Text("T".to_string()), "b") {
        GuacAnswer::Granted { token, guac_url } => {
            assert_eq!((token.as_str(), guac_url.as_str()), ("T", "b"));
        }
        other => panic!("{:?}", other),
    }
}

#[test]
fn each_failure_has_its_answer() {
    let bad = TokenOutcome::Responded("<html>".to_string());
    assert_eq!(failure(guac_token(bad, "b")), "Invalid Guacamole response");
    let none = TokenOutcome::Responded("{\"message\":\"no\"}".to_string());
    assert_eq!(failure(guac_token(none, "b")), "Guacamole login failed");
    let empty = TokenOutcome::Responded("{\"authToken\":\"\"}".to_string());
    assert_eq!(failure(guac_token(empty, "b")), "Guacamole login failed");
    let failed = TokenOutcome::Failed("Connect error: refused".to_string());
    assert_eq!(failure(guac_token(failed, "b")), "Guacamole error: Connect error: refused");
    let aborted = TokenOutcome::Aborted("gone".to_string());
    assert_eq!(failure(guac_token(aborted, "b")), "Server error: gone");
    assert_eq!(failure(answer_from_member(Member::NoDocument, "b")), "Invalid Guacamole response");
    assert_eq!(failure(answer_from_member(Member::Absent, "b")), "Guacamole login failed");
}

#[test]
fn answers_do_not_depend_on_the_credentials() {
    let (techs, token) = logged_in();
    for t in [None, Some(token.as_str())] {
        let a = guac_token_request(&techs, t, &guac_config(text("http://g"), text("u"), text("p")), NOW);
        let b = guac_token_request(&techs, t, &guac_config(text("http://g"), text("v"), text("q")), NOW);
        match (a, b) {
            (Err(x), Err(y)) => assert_eq!(format!("{:?}", x), format!("{:?}", y)),
            (Ok(_), Ok(_)) => {}
            other => panic!("{:?}", other),
        }
    }
    let granted = guac_token(TokenOutcome::Responded("{\"authToken\":\"T\"}".to_string()), "http://g");
    assert_eq!(
        format!("{:?}", granted),
        "Granted { token: \"T\", guac_url: \"http://g\" }"
    );
}

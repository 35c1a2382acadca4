use akkhara::json::{extract_json_string_array, extract_json_string_field};
use akkhara::library::LibraryLoader;
use akkhara::request::{check_url, content_type, finish_request, http_response, Method, Reply};
use std::path::PathBuf;

#[test]
fn json_field_is_read() {
    let body = "{\"tag_name\": \"v1.2.0\", \"message\":\"hi\"}";
    assert_eq!(extract_json_string_field(body, "tag_name"), Some("v1.2.0".to_string()));
    assert_eq!(extract_json_string_field(body, "message"), Some("hi".to_string()));
    assert_eq!(extract_json_string_field(body, "missing"), None);
    // A value that is not a string is no string field.
    assert_eq!(extract_json_string_field("{\"n\": 5}", "n"), None);
    // An unterminated value gives nothing.
    assert_eq!(extract_json_string_field("{\"a\": \"open", "a"), None);
}

#[test]
fn json_array_entries_are_read() {
    let body = "{\"packages\": [\"alpha\", \"beta\",\"gamma\"], \"x\": [\"no\"]}";
    assert_eq!(
        extract_json_string_array(body, "packages"),
        vec!["alpha".to_string(), "beta".to_string(), "gamma".to_string()]
    );
    assert!(extract_json_string_array(body, "none").is_empty());
    assert!(extract_json_string_array("{\"packages\": []}", "packages").is_empty());
    assert!(extract_json_string_array("{\"packages\": [\"a\"", "packages").is_empty());
}

#[test]
fn loader_marks_and_reports() {
    let mut l = LibraryLoader::new(PathBuf::from("libs"));
    assert!(!l.is_loaded("request"));
    l.mark_loaded("request");
    assert!(l.is_loaded("request"));
    assert!(!l.is_loaded("req"));
    l.mark_loaded("request");
    assert!(l.is_loaded("request"));
    l.mark_loaded("ကျပန်း");
    assert!(l.is_loaded("ကျပန်း"));
    assert!(l.is_loaded("request"));
    assert_eq!(l.libraries_dir(), &PathBuf::from("libs"));
}

#[test]
fn loader_entry_path() {
    assert_eq!(LibraryLoader::entry_path(None), "main/main.akk");
    assert_eq!(LibraryLoader::entry_path(Some("{\"entry\": \"src/lib.akk\"}")), "src/lib.akk");
    assert_eq!(LibraryLoader::entry_path(Some("{\"name\": \"x\"}")), "main/main.akk");
}

#[test]
fn check_url_accepts_http_and_https() {
    assert!(check_url("http://example.com").is_ok());
    assert!(check_url("https://example.com/a?b=1").is_ok());
}

#[test]
fn check_url_refuses_blank() {
    let want = "E072 request ၏ url တန်ဖိုးသည် ဗလာ ဖြစ်နေပါသည်။ URL တစ်ခု ပေးပါ။";
    assert_eq!(check_url("").unwrap_err(), want);
    assert_eq!(check_url("  \t\n").unwrap_err(), want);
}

#[test]
fn check_url_refuses_other_schemes() {
    assert_eq!(
        check_url("ftp://x").unwrap_err(),
        "E072 request ၏ url \"ftp://x\" သည် \"http://\" သို့မဟုတ် \"https://\" ဖြင့် မစပါ။"
    );
    assert!(check_url(" http://x").is_err());
    assert!(check_url("example.com").is_err());
    assert!(check_url("HTTP://x").is_err());
}

#[test]
fn check_url_refuses_missing_host() {
    assert_eq!(
        check_url("https://").unwrap_err(),
        "E072 request ၏ url \"https://\" တွင် host မပါပါ။"
    );
    assert!(check_url("http:///path").is_err());
    assert!(check_url("http://?q=1").is_err());
    assert!(check_url("http://h").is_ok());
}

#[test]
fn post_content_types() {
    assert_eq!(content_type("{\"a\": 1}"), "application/json");
    assert_eq!(content_type("[1, 2]"), "application/json");
    assert_eq!(content_type("a=1&b=2"), "application/x-www-form-urlencoded");
    assert_eq!(content_type("a = 1"), "text/plain; charset=utf-8");
    assert_eq!(content_type("hello"), "text/plain; charset=utf-8");
    assert_eq!(content_type(""), "text/plain; charset=utf-8");
}

#[test]
fn response_ok_below_400() {
    let r = http_response(200, "body".to_string(), "http://x/".to_string());
    assert_eq!(r.status_code, 200);
    assert_eq!(r.body, "body");
    assert_eq!(r.url, "http://x/");
    assert!(r.ok);
    assert!(http_response(399, String::new(), String::new()).ok);
    assert!(!http_response(400, String::new(), String::new()).ok);
    assert!(!http_response(404, String::new(), String::new()).ok);
    assert!(!http_response(500, String::new(), String::new()).ok);
}

#[test]
fn finish_request_maps_replies() {
    let ok = finish_request(
        Method::Get,
        "http://x",
        Reply::Response { status: 404, body: "nf".to_string(), url: "http://x/nf".to_string() },
    )
    .unwrap();
    assert_eq!(ok.status_code, 404);
    assert_eq!(ok.body, "nf");
    assert!(!ok.ok);
    assert_eq!(ok.url, "http://x/nf");
    assert_eq!(
        finish_request(Method::Get, "http://x", Reply::Transport("timeout".to_string()))
            .err()
            .unwrap(),
        "E070 request ၏ GET \"http://x\" တောင်းဆိုမှု မအောင်မြင်ပါ - timeout"
    );
    assert_eq!(
        finish_request(Method::Post, "https://y", Reply::Transport("dns".to_string()))
            .err()
            .unwrap(),
        "E070 request ၏ POST \"https://y\" တောင်းဆိုမှု မအောင်မြင်ပါ - dns"
    );
}

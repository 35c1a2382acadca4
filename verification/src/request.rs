//! The "request" library: URL checks before an HTTP call, the content type
//! of a POST body, and how a reply (a status with its body, or a transport
//! failure) becomes the response object or the error an Akkhara program
//! sees. The network call itself is made by the program around the library.
use vstd::prelude::*;

use crate::text::{
    all_whitespace, chars_of, has_prefix, is_whitespace, is_whitespace_spec, starts_with,
    sub_chars,
};

verus! {

/// A single HTTP response as plain data.
pub struct HttpResponse {
    pub status_code: i64,
    pub body: String,
    pub ok: bool,
    /// The URL that answered, after any redirects.
    pub url: String,
}

/// Builds the response for a reply with the given status, body text and
/// final URL. A response counts as successful when its status is below 400.
pub fn http_response(status: u16, body: String, url: String) -> (r: HttpResponse)
    ensures
        r.status_code == status as i64,
        r.body@ == body@,
        r.ok == (status < 400),
        r.url@ == url@,
{
    HttpResponse { status_code: status as i64, body, ok: status < 400, url }
}

/// The HTTP method of a request.
#[derive(Clone, Copy, Debug)]
pub enum Method {
    Get,
    Post,
}

/// What came back from the network for a request: a reply with a status
/// (error statuses such as 404 included), its body and the URL that
/// answered; or a failure below HTTP (DNS, refused connection, time-out,
/// TLS), described in words.
pub enum Reply {
    Response { status: u16, body: String, url: String },
    Transport(String),
}

pub open spec fn url_empty_msg() -> Seq<char> {
    "E072 request ၏ url တန်ဖိုးသည် ဗလာ ဖြစ်နေပါသည်။ URL တစ်ခု ပေးပါ။"@
}

pub open spec fn url_scheme_msg(url: Seq<char>) -> Seq<char> {
    "E072 request ၏ url \""@ + url + "\" သည် \"http://\" သို့မဟုတ် \"https://\" ဖြင့် မစပါ။"@
}

pub open spec fn url_host_msg(url: Seq<char>) -> Seq<char> {
    "E072 request ၏ url \""@ + url + "\" တွင် host မပါပါ။"@
}

/// What follows the scheme of a URL that starts with `http://` or
/// `https://`.
pub open spec fn after_scheme(url: Seq<char>) -> Seq<char> {
    if has_prefix(url, "http://"@) {
        url.subrange("http://"@.len() as int, url.len() as int)
    } else {
        url.subrange("https://"@.len() as int, url.len() as int)
    }
}

/// The host is missing: nothing follows the scheme, or a path, query or
/// fragment follows it at once.
pub open spec fn host_missing(rest: Seq<char>) -> bool {
    rest.len() == 0 || rest[0] == '/' || rest[0] == '?' || rest[0] == '#'
}

/// Whether a URL is accepted, and the message when it is not: a URL that
/// is empty or only white space, one that does not start with `http://`
/// or `https://`, or one with no host, is refused (code E072).
pub open spec fn check_url_spec(url: Seq<char>) -> Result<(), Seq<char>> {
    if all_whitespace(url) {
        Err(url_empty_msg())
    } else if !(has_prefix(url, "http://"@) || has_prefix(url, "https://"@)) {
        Err(url_scheme_msg(url))
    } else if host_missing(after_scheme(url)) {
        Err(url_host_msg(url))
    } else {
        Ok(())
    }
}

fn is_blank(s: &[char]) -> (r: bool)
    ensures
        r == all_whitespace(s@),
{
    let mut i: usize = 0;
    while i < s.len()
        invariant
            i <= s@.len(),
            forall|k: int| 0 <= k < i ==> is_whitespace_spec(#[trigger] s@[k]),
        decreases s.len() - i,
    {
        if !is_whitespace(s[i]) {
            return false;
        }
        i += 1;
    }
    true
}

/// Checks a URL before any request is made.
pub fn check_url(url: &str) -> (r: Result<(), String>)
    ensures
        match (r, check_url_spec(url@)) {
            (Ok(()), Ok(())) => true,
            (Err(m), Err(e)) => m@ == e,
            _ => false,
        },
{
    let cs = chars_of(url);
    if is_blank(cs.as_slice()) {
        return Err(
            String::from_str("E072 request ၏ url တန်ဖိုးသည် ဗလာ ဖြစ်နေပါသည်။ URL တစ်ခု ပေးပါ။"),
        );
    }
    let http = chars_of("http://");
    let https = chars_of("https://");
    let plain = starts_with(cs.as_slice(), http.as_slice());
    if !(plain || starts_with(cs.as_slice(), https.as_slice())) {
        let mut m = String::from_str("E072 request ၏ url \"");
        m.append(url);
        m.append("\" သည် \"http://\" သို့မဟုတ် \"https://\" ဖြင့် မစပါ။");
        return Err(m);
    }
    let skip = if plain {
        http.len()
    } else {
        https.len()
    };
    let rest = sub_chars(cs.as_slice(), skip, cs.len());
    if rest.len() == 0 || rest[0] == '/' || rest[0] == '?' || rest[0] == '#' {
        let mut m = String::from_str("E072 request ၏ url \"");
        m.append(url);
        m.append("\" တွင် host မပါပါ။");
        return Err(m);
    }
    Ok(())
}

/// The content type of a POST body: JSON when it starts with `{` or `[`,
/// form-encoded when it holds an `=` and no space, plain text otherwise.
pub open spec fn content_type_spec(data: Seq<char>) -> Seq<char> {
    if data.len() > 0 && (data[0] == '{' || data[0] == '[') {
        "application/json"@
    } else if data.contains('=') && !data.contains(' ') {
        "application/x-www-form-urlencoded"@
    } else {
        "text/plain; charset=utf-8"@
    }
}

/// Chooses the content type of a POST body.
pub fn content_type(data: &str) -> (r: &'static str)
    ensures
        r@ == content_type_spec(data@),
{
    let cs = chars_of(data);
    if cs.len() > 0 && (cs[0] == '{' || cs[0] == '[') {
        return "application/json";
    }
    let mut has_eq = false;
    let mut has_space = false;
    let mut i: usize = 0;
    while i < cs.len()
        invariant
            i <= cs@.len(),
            cs@ == data@,
            has_eq == exists|k: int| 0 <= k < i && cs@[k] == '=',
            has_space == exists|k: int| 0 <= k < i && cs@[k] == ' ',
        decreases cs.len() - i,
    {
        if cs[i] == '=' {
            has_eq = true;
        }
        if cs[i] == ' ' {
            has_space = true;
        }
        i += 1;
    }
    proof {
        assert(has_eq == data@.contains('='));
        assert(has_space == data@.contains(' '));
    }
    if has_eq && !has_space {
        "application/x-www-form-urlencoded"
    } else {
        "text/plain; charset=utf-8"
    }
}

pub open spec fn method_name(method: Method) -> Seq<char> {
    match method {
        Method::Get => "GET"@,
        Method::Post => "POST"@,
    }
}

/// A transport failure (code E070).
pub open spec fn transport_msg(method: Method, url: Seq<char>, detail: Seq<char>) -> Seq<char> {
    "E070 request ၏ "@ + method_name(method) + " \""@ + url + "\" တောင်းဆိုမှု မအောင်မြင်ပါ - "@
        + detail
}

/// What a request to `url` gives once the network has replied: any reply
/// with a status, error statuses included, is a response; a transport
/// failure is an error that names the method and the URL.
pub fn finish_request(method: Method, url: &str, reply: Reply) -> (r: Result<HttpResponse, String>)
    ensures
        match reply {
            Reply::Response { status, body, url: final_url } => r matches Ok(resp)
                && resp.status_code == status as i64 && resp.body@ == body@ && resp.ok == (status
                < 400) && resp.url@ == final_url@,
            Reply::Transport(detail) => r matches Err(m) && m@ == transport_msg(
                method,
                url@,
                detail@,
            ),
        },
{
    match reply {
        Reply::Response { status, body, url: final_url } => Ok(
            http_response(status, body, final_url),
        ),
        Reply::Transport(detail) => {
            let mut m = String::from_str("E070 request ၏ ");
            match method {
                Method::Get => m.append("GET"),
                Method::Post => m.append("POST"),
            }
            m.append(" \"");
            m.append(url);
            m.append("\" တောင်းဆိုမှု မအောင်မြင်ပါ - ");
            m.append(detail.as_str());
            Err(m)
        },
    }
}

} // verus!

use vstd::prelude::*;

verus! {

/// Redirects a session request may follow before it fails.
pub const MAX_REDIRECTS: usize = 3;

/// Seconds a session request may take.
pub const SESSION_TIMEOUT_SECS: u64 = 15;

/// Whether a redirect is followed, given how many hops the request has made already.
/// The same URL may come back on purpose, as the session cookie changes between hops,
/// so only the count decides.
pub fn follow_redirect(previous_hops: usize) -> (r: bool)
    ensures
        r == (previous_hops <= MAX_REDIRECTS),
{
    previous_hops <= MAX_REDIRECTS
}

/// `https://` followed by `host` and `path`.
pub fn site_url(host: &str, path: &str) -> (r: String)
    ensures
        r@ == "https://"@ + host@ + path@,
{
    let mut r = "https://".to_owned();
    r.append(host);
    r.append(path);
    r
}

/// The pages fetched to set up a session, in order: the front page only after a
/// login, then the settings page and the tag page for their cookies.
pub fn bootstrap_urls(host: &str, after_login: bool) -> (r: Vec<String>)
    ensures
        after_login ==> r@.len() == 3 && r@[0]@ == "https://"@ + host@ + ""@ && r@[1]@
            == "https://"@ + host@ + "/uconfig.php"@ && r@[2]@ == "https://"@ + host@
            + "/mytags"@,
        !after_login ==> r@.len() == 2 && r@[0]@ == "https://"@ + host@ + "/uconfig.php"@
            && r@[1]@ == "https://"@ + host@ + "/mytags"@,
{
    let mut r: Vec<String> = Vec::new();
    if after_login {
        r.push(site_url(host, ""));
    }
    r.push(site_url(host, "/uconfig.php"));
    r.push(site_url(host, "/mytags"));
    r
}

/// A name and a value, both copied from literals.
fn pair(name: &str, value: &str) -> (r: (String, String))
    ensures
        r.0@ == name@,
        r.1@ == value@,
{
    (name.to_owned(), value.to_owned())
}

/// The fixed headers of every session request; the host and the referer come
/// from `host`.
pub fn session_headers(host: &str) -> (r: Vec<(String, String)>)
    ensures
        r@.len() == 9,
        r@[0].0@ == "accept"@
            && r@[0].1@ == "text/html,application/xhtml+xml,application/xml;q=0.9,*/*;q=0.8"@,
        r@[1].0@ == "accept-encoding"@ && r@[1].1@ == "gzip, deflate, br"@,
        r@[2].0@ == "accept-language"@ && r@[2].1@ == "zh-CN,en-US;q=0.7,en;q=0.3"@,
        r@[3].0@ == "cache-control"@ && r@[3].1@ == "max-age=0"@,
        r@[4].0@ == "dnt"@ && r@[4].1@ == "1"@,
        r@[5].0@ == "host"@ && r@[5].1@ == host@,
        r@[6].0@ == "referer"@ && r@[6].1@ == "https://"@ + host@ + "/"@,
        r@[7].0@ == "upgrade-insecure-requests"@ && r@[7].1@ == "1"@,
        r@[8].0@ == "user-agent"@ && r@[8].1@
            == "Mozilla/5.0 (X11; Ubuntu; Linux x86_64; rv:67.0) Gecko/20100101 Firefox/67.0"@,
{
    let mut r: Vec<(String, String)> = Vec::new();
    r.push(pair("accept", "text/html,application/xhtml+xml,application/xml;q=0.9,*/*;q=0.8"));
    r.push(pair("accept-encoding", "gzip, deflate, br"));
    r.push(pair("accept-language", "zh-CN,en-US;q=0.7,en;q=0.3"));
    r.push(pair("cache-control", "max-age=0"));
    r.push(pair("dnt", "1"));
    r.push(pair("host", host));
    r.push(("referer".to_owned(), site_url(host, "/")));
    r.push(pair("upgrade-insecure-requests", "1"));
    r.push(
        pair(
            "user-agent",
            "Mozilla/5.0 (X11; Ubuntu; Linux x86_64; rv:67.0) Gecko/20100101 Firefox/67.0",
        ),
    );
    r
}

/// The address of the login form.
pub fn login_url() -> (r: String)
    ensures
        r@ == "https://forums.e-hentai.org/index.php"@,
{
    "https://forums.e-hentai.org/index.php".to_owned()
}

/// The query of the login request.
pub fn login_query() -> (r: Vec<(String, String)>)
    ensures
        r@.len() == 2,
        r@[0].0@ == "act"@ && r@[0].1@ == "Login"@,
        r@[1].0@ == "CODE"@ && r@[1].1@ == "01"@,
{
    let mut r: Vec<(String, String)> = Vec::new();
    r.push(pair("act", "Login"));
    r.push(pair("CODE", "01"));
    r
}

/// The login form's fields, with the given credentials.
pub fn login_form(username: &str, password: &str) -> (r: Vec<(String, String)>)
    ensures
        r@.len() == 6,
        r@[0].0@ == "CookieDate"@ && r@[0].1@ == "1"@,
        r@[1].0@ == "b"@ && r@[1].1@ == "d"@,
        r@[2].0@ == "bt"@ && r@[2].1@ == "1-6"@,
        r@[3].0@ == "UserName"@ && r@[3].1@ == username@,
        r@[4].0@ == "PassWord"@ && r@[4].1@ == password@,
        r@[5].0@ == "ipb_login_submit"@ && r@[5].1@ == "Login!"@,
{
    let mut r: Vec<(String, String)> = Vec::new();
    r.push(pair("CookieDate", "1"));
    r.push(pair("b", "d"));
    r.push(pair("bt", "1-6"));
    r.push(pair("UserName", username));
    r.push(pair("PassWord", password));
    r.push(pair("ipb_login_submit", "Login!"));
    r
}

} // verus!

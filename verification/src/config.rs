//! The configured URLs and their validation.
use vstd::prelude::*;
use crate::text::{chars_of, contains_chars, contains_seq, occurs_at, starts_with, starts_with_chars};

verus! {

/// The application configuration.
#[derive(Debug)]
pub struct Config {
    pub server: ServerConfig,
}

/// Where the specification is and where requests go.
#[derive(Debug)]
pub struct ServerConfig {
    /// URL of the OpenAPI document.
    pub swagger_url: Option<String>,
    /// Base URL of the API the requests go to.
    pub base_url: Option<String>,
}

impl Config {
    /// No URL configured.
    pub fn default() -> (c: Self)
        ensures
            c.server.swagger_url is None,
            c.server.base_url is None,
    {
        Config { server: ServerConfig { swagger_url: None, base_url: None } }
    }

    /// Records the Swagger URL and the base URL (as given, without deriving
    /// one from the other).
    pub fn set_swagger_url(&mut self, swagger_url: String, base_url: Option<String>)
        ensures
            final(self).server.swagger_url == Some(swagger_url),
            final(self).server.base_url == base_url,
    {
        self.server.swagger_url = Some(swagger_url);
        self.server.base_url = base_url;
    }
}

/// What `validate_url` reports for a URL.
pub open spec fn url_check(url: Seq<char>) -> Result<(), Seq<char>> {
    if url.len() == 0 {
        Err("URL cannot be empty"@)
    } else if !starts_with(url, "http://"@) && !starts_with(url, "https://"@) {
        Err("URL must start with http:// or https://"@)
    } else if !contains_seq(url, "://"@) {
        Err("Invalid URL format"@)
    } else {
        Ok(())
    }
}

fn message(text: &str) -> (r: String)
    ensures
        r@ == text@,
{
    text.to_owned()
}

/// Checks that a URL is not empty and starts with `http://` or `https://`.
pub fn validate_url(url: &str) -> (r: Result<(), String>)
    ensures
        match url_check(url@) {
            Ok(_) => r is Ok,
            Err(m) => r matches Err(e) && e@ == m,
        },
{
    let u = chars_of(url);
    if u.len() == 0 {
        return Err(message("URL cannot be empty"));
    }
    let http = chars_of("http://");
    let https = chars_of("https://");
    if !starts_with_chars(u.as_slice(), http.as_slice()) && !starts_with_chars(u.as_slice(), https.as_slice()) {
        return Err(message("URL must start with http:// or https://"));
    }
    let sep = chars_of("://");
    if !contains_chars(u.as_slice(), sep.as_slice()) {
        return Err(message("Invalid URL format"));
    }
    Ok(())
}

/// Law: a URL passes `validate_url` exactly when it starts with `http://` or
/// `https://`; otherwise the message says it is empty, or that it must start
/// with one of them.
pub proof fn law_url_check_by_prefix(url: Seq<char>)
    ensures
        (url_check(url) is Ok) == (starts_with(url, "http://"@) || starts_with(url, "https://"@)),
        url.len() == 0 ==> url_check(url) == Err::<(), Seq<char>>("URL cannot be empty"@),
        url.len() > 0 && !starts_with(url, "http://"@) && !starts_with(url, "https://"@) ==> url_check(url)
            == Err::<(), Seq<char>>("URL must start with http:// or https://"@),
{
    reveal_strlit("http://");
    reveal_strlit("https://");
    reveal_strlit("://");
    if starts_with(url, "http://"@) {
        let h = "http://"@;
        assert(url.take(7) == h);
        assert(h[4] == ':' && h[5] == '/' && h[6] == '/');
        assert(url[4] == url.take(7)[4] && url[5] == url.take(7)[5] && url[6] == url.take(7)[6]);
        assert(url.subrange(4, 7) =~= "://"@);
        assert(occurs_at(url, "://"@, 4));
    } else if starts_with(url, "https://"@) {
        let h = "https://"@;
        assert(url.take(8) == h);
        assert(h[5] == ':' && h[6] == '/' && h[7] == '/');
        assert(url[5] == url.take(8)[5] && url[6] == url.take(8)[6] && url[7] == url.take(8)[7]);
        assert(url.subrange(5, 8) =~= "://"@);
        assert(occurs_at(url, "://"@, 5));
    }
}

} // verus!

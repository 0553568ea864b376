//! Building request URLs from an endpoint's path template and parameters.
use vstd::prelude::*;
use crate::strmap::{Entries, StringMap};
use url::ParseError;
use crate::text::{
    chars_of, contains_chars, push_all, replace_all, replace_chars, slice_range, string_from_chars,
};

verus! {

/// Why `url::Url::parse` refused a text: the variants of `url::ParseError`
/// in the version used, and `Other` with the message of any variant that a
/// later version adds.
pub enum UrlError {
    EmptyHost,
    IdnaError,
    InvalidPort,
    InvalidIpv4Address,
    InvalidIpv6Address,
    InvalidDomainCharacter,
    RelativeUrlWithoutBase,
    RelativeUrlWithCannotBeABaseBase,
    SetHostOnCannotBeABaseUrl,
    Overflow,
    Other(String),
}

/// The outcome of `url::Url::parse` on `input`: the serialization of the URL
/// it reads, or why it refuses the input.
pub uninterp spec fn url_parse_result(input: Seq<char>) -> Result<Seq<char>, UrlError>;

/// The serialization of the URL that `url::Url::parse` reads from `input`,
/// or `None` when it refuses the input.
pub open spec fn url_serialization(input: Seq<char>) -> Option<Seq<char>> {
    match url_parse_result(input) {
        Ok(s) => Some(s),
        Err(_) => None,
    }
}

/// The serialization of the URL that `url::Url::parse_with_params` makes of
/// `input` and the `(key, value)` pairs, or `None` when it refuses the input.
pub uninterp spec fn url_serialization_with_query(
    input: Seq<char>,
    pairs: Seq<(Seq<char>, Seq<char>)>,
) -> Option<Seq<char>>;

/// The message of a `url::ParseError` (its `Display` text, as the `url`
/// crate's source writes it).
pub open spec fn url_error_text(e: UrlError) -> Seq<char> {
    match e {
        UrlError::EmptyHost => "empty host"@,
        UrlError::IdnaError => "invalid international domain name"@,
        UrlError::InvalidPort => "invalid port number"@,
        UrlError::InvalidIpv4Address => "invalid IPv4 address"@,
        UrlError::InvalidIpv6Address => "invalid IPv6 address"@,
        UrlError::InvalidDomainCharacter => "invalid domain character"@,
        UrlError::RelativeUrlWithoutBase => "relative URL without a base"@,
        UrlError::RelativeUrlWithCannotBeABaseBase => "relative URL with a cannot-be-a-base base"@,
        UrlError::SetHostOnCannotBeABaseUrl => "a cannot-be-a-base URL doesn\u{2019}t have a host to set"@,
        UrlError::Overflow => "URLs more than 4 GB are not supported"@,
        UrlError::Other(m) => m@,
    }
}

/// Calls `url::Url::parse` and writes the URL out (`Display`, which is the
/// serialization), or tells the error's variants apart, one arm each (a
/// variant that a later version adds keeps its `Display` text); the contract
/// claims the outcome is the one `url_parse_result` names.
#[verifier::external_body]
fn url_parse(input: &str) -> (r: Result<String, UrlError>)
    ensures
        match r {
            Ok(s) => url_parse_result(input@) == Ok::<Seq<char>, UrlError>(s@),
            Err(e) => url_parse_result(input@) == Err::<Seq<char>, UrlError>(e),
        },
{
    match url::Url::parse(input) {
        Ok(u) => Ok(u.to_string()),
        Err(ParseError::EmptyHost) => Err(UrlError::EmptyHost),
        Err(ParseError::IdnaError) => Err(UrlError::IdnaError),
        Err(ParseError::InvalidPort) => Err(UrlError::InvalidPort),
        Err(ParseError::InvalidIpv4Address) => Err(UrlError::InvalidIpv4Address),
        Err(ParseError::InvalidIpv6Address) => Err(UrlError::InvalidIpv6Address),
        Err(ParseError::InvalidDomainCharacter) => Err(UrlError::InvalidDomainCharacter),
        Err(ParseError::RelativeUrlWithoutBase) => Err(UrlError::RelativeUrlWithoutBase),
        Err(ParseError::RelativeUrlWithCannotBeABaseBase) => Err(UrlError::RelativeUrlWithCannotBeABaseBase),
        Err(ParseError::SetHostOnCannotBeABaseUrl) => Err(UrlError::SetHostOnCannotBeABaseUrl),
        Err(ParseError::Overflow) => Err(UrlError::Overflow),
        Err(e) => Err(UrlError::Other(e.to_string())),
    }
}

/// Calls `url::Url::parse_with_params` and writes the URL out, or `None` on
/// its error; the contract claims the outcome is the one
/// `url_serialization_with_query` names, and (as its source shows: it
/// parses, then appends the pairs) that it fails exactly when
/// `url::Url::parse` fails on the same input.
#[verifier::external_body]
fn url_parse_with_params(input: &str, pairs: &Vec<(String, String)>) -> (r: Option<String>)
    ensures
        match r {
            Some(s) => url_serialization_with_query(input@, entry_views_of(pairs@)) == Some(s@),
            None => url_serialization_with_query(input@, entry_views_of(pairs@)) is None,
        },
        (r is Some) == (url_parse_result(input@) is Ok),
{
    match url::Url::parse_with_params(input, pairs.iter()) {
        Ok(u) => Some(u.to_string()),
        Err(_) => None,
    }
}

/// The message of a URL error (`url_error_text`).
pub fn url_error_message(e: &UrlError) -> (r: String)
    ensures
        r@ == url_error_text(*e),
{
    match e {
        UrlError::EmptyHost => String::from_str("empty host"),
        UrlError::IdnaError => String::from_str("invalid international domain name"),
        UrlError::InvalidPort => String::from_str("invalid port number"),
        UrlError::InvalidIpv4Address => String::from_str("invalid IPv4 address"),
        UrlError::InvalidIpv6Address => String::from_str("invalid IPv6 address"),
        UrlError::InvalidDomainCharacter => String::from_str("invalid domain character"),
        UrlError::RelativeUrlWithoutBase => String::from_str("relative URL without a base"),
        UrlError::RelativeUrlWithCannotBeABaseBase => String::from_str("relative URL with a cannot-be-a-base base"),
        UrlError::SetHostOnCannotBeABaseUrl => String::from_str("a cannot-be-a-base URL doesn\u{2019}t have a host to set"),
        UrlError::Overflow => String::from_str("URLs more than 4 GB are not supported"),
        UrlError::Other(m) => m.clone(),
    }
}

pub open spec fn entry_views_of(v: Seq<(String, String)>) -> Entries {
    v.map_values(|e: (String, String)| (e.0@, e.1@))
}

/// `"{" + key + "}"`.
pub open spec fn placeholder(key: Seq<char>) -> Seq<char> {
    seq!['{'] + key + seq!['}']
}

/// The path template with each `{key}` replaced by the key's value, keys
/// taken in order; `skip_empty` leaves the placeholders of empty values.
pub open spec fn substitute(path: Seq<char>, params: Entries, skip_empty: bool) -> Seq<char>
    decreases params.len(),
{
    if params.len() == 0 {
        path
    } else {
        let p = substitute(path, params.drop_last(), skip_empty);
        let (k, v) = params.last();
        if skip_empty && v.len() == 0 {
            p
        } else {
            replace_all(p, placeholder(k), v)
        }
    }
}

/// The entries with a non-empty value, in order.
pub open spec fn non_empty(params: Entries) -> Entries {
    params.filter(|e: (Seq<char>, Seq<char>)| e.1.len() > 0)
}

/// `s` without its trailing `'/'` characters (`str::trim_end_matches('/')`).
pub open spec fn trim_slashes(s: Seq<char>) -> Seq<char>
    decreases s.len(),
{
    if s.len() > 0 && s.last() == '/' {
        trim_slashes(s.drop_last())
    } else {
        s
    }
}

/// `{key}` as characters.
fn placeholder_of(key: &str) -> (r: Vec<char>)
    ensures
        r@ == placeholder(key@),
{
    let mut r: Vec<char> = Vec::new();
    r.push('{');
    let k = chars_of(key);
    push_all(&mut r, k.as_slice());
    r.push('}');
    r
}

/// Computes `substitute(path, params, skip_empty)`.
fn substitute_params(path: &str, params: &StringMap, skip_empty: bool) -> (r: Vec<char>)
    ensures
        r@ == substitute(path@, params@, skip_empty),
{
    let entries = params.entries();
    let mut p = chars_of(path);
    let mut i: usize = 0;
    while i < entries.len()
        invariant
            i <= entries@.len(),
            entry_views_of(entries@) == params@,
            p@ == substitute(path@, params@.take(i as int), skip_empty),
        decreases entries@.len() - i,
    {
        assert(params@.take(i + 1).drop_last() =~= params@.take(i as int));
        assert(params@.take(i + 1).last() == (entries@[i as int].0@, entries@[i as int].1@));
        let key = &entries[i].0;
        let value = chars_of(entries[i].1.as_str());
        if !(skip_empty && value.len() == 0) {
            let ph = placeholder_of(key.as_str());
            if contains_chars(p.as_slice(), ph.as_slice()) {
                p = replace_chars(p.as_slice(), ph.as_slice(), value.as_slice());
            } else {
                proof {
                    lemma_replace_absent(p@, ph@, value@);
                }
            }
        }
        i = i + 1;
    }
    assert(params@.take(i as int) =~= params@);
    p
}

/// Replacing a pattern that does not occur changes nothing.
proof fn lemma_replace_absent(s: Seq<char>, pat: Seq<char>, rep: Seq<char>)
    requires
        pat.len() > 0,
        !crate::text::contains_seq(s, pat),
    ensures
        replace_all(s, pat, rep) == s,
    decreases s.len(),
{
    if s.len() >= pat.len() {
        assert(s.take(pat.len() as int) =~= s.subrange(0, pat.len() as int));
        assert(!crate::text::occurs_at(s, pat, 0));
        assert forall|i: int| !crate::text::occurs_at(s.drop_first(), pat, i) by {
            if crate::text::occurs_at(s.drop_first(), pat, i) {
                assert(s.subrange(i + 1, i + 1 + pat.len()) =~= s.drop_first().subrange(i, i + pat.len()));
                assert(crate::text::occurs_at(s, pat, i + 1));
            }
        }
        lemma_replace_absent(s.drop_first(), pat, rep);
        assert(seq![s[0]] + s.drop_first() =~= s);
    }
}

/// The entries of `params` with a non-empty value, in order.
fn non_empty_pairs(params: &StringMap) -> (r: Vec<(String, String)>)
    ensures
        entry_views_of(r@) == non_empty(params@),
{
    let entries = params.entries();
    let mut r: Vec<(String, String)> = Vec::new();
    let mut i: usize = 0;
    while i < entries.len()
        invariant
            i <= entries@.len(),
            entry_views_of(entries@) == params@,
            entry_views_of(r@) == non_empty(params@.take(i as int)),
        decreases entries@.len() - i,
    {
        assert(params@.take(i + 1).drop_last() =~= params@.take(i as int));
        assert(params@.take(i + 1).last() == (entries@[i as int].0@, entries@[i as int].1@));
        reveal_with_fuel(Seq::filter, 1);
        if !entries[i].1.as_str().is_empty() {
            let ghost before = r@;
            r.push((entries[i].0.clone(), entries[i].1.clone()));
            assert(entry_views_of(r@) =~= entry_views_of(before).push(
                (entries@[i as int].0@, entries@[i as int].1@),
            ));
        }
        i = i + 1;
    }
    assert(params@.take(i as int) =~= params@);
    r
}

/// The text given to the URL parser: the base URL without trailing slashes,
/// then the path template with its path parameters filled in.
pub open spec fn full_url_text(base: Seq<char>, template: Seq<char>, path_params: Entries) -> Seq<char> {
    trim_slashes(base) + substitute(template, path_params, false)
}

/// What is handed to the URL parser: the base URL without trailing slashes
/// followed by the path with every `{name}` of a path parameter replaced by
/// its value, and the query parameters with a non-empty value, in order.
pub fn url_parts(
    base_url: &str,
    path_template: &str,
    path_params: &StringMap,
    query_params: &StringMap,
) -> (r: (String, Vec<(String, String)>))
    ensures
        r.0@ == full_url_text(base_url@, path_template@, path_params@),
        entry_views_of(r.1@) == non_empty(query_params@),
{
    let path = substitute_params(path_template, path_params, false);
    let base = chars_of(base_url);
    let mut n = base.len();
    assert(base@.take(n as int) =~= base@);
    while n > 0 && base[n - 1] == '/'
        invariant
            n <= base@.len(),
            trim_slashes(base@) == trim_slashes(base@.take(n as int)),
        decreases n,
    {
        assert(base@.take(n as int).drop_last() =~= base@.take(n - 1));
        n = n - 1;
    }
    let mut full = slice_range(base.as_slice(), 0, n);
    assert(full@ =~= base@.take(n as int));
    push_all(&mut full, path.as_slice());
    (string_from_chars(full.as_slice()), non_empty_pairs(query_params))
}

/// The full URL of a request: see `url_parts` for what is handed to the URL
/// parser (`url::Url::parse`, or `url::Url::parse_with_params` when there are
/// query parameters, which encodes them); its serialization is the result.
/// When the parser refuses the text, the error is `"Invalid URL: "` followed
/// by the parser's message.
pub fn build_url_with_params(
    base_url: &str,
    path_template: &str,
    path_params: &StringMap,
    query_params: &StringMap,
) -> (r: Result<String, String>)
    ensures
        ({
            let full = full_url_text(base_url@, path_template@, path_params@);
            let pairs = non_empty(query_params@);
            match url_parse_result(full) {
                Ok(u) => r matches Ok(x) && Some(x@) == if pairs.len() == 0 {
                    Some(u)
                } else {
                    url_serialization_with_query(full, pairs)
                },
                Err(e) => r matches Err(m) && m@ == "Invalid URL: "@ + url_error_text(e),
            }
        }),
{
    let (full, pairs) = url_parts(base_url, path_template, path_params, query_params);
    let parsed = if pairs.len() == 0 {
        url_parse(full.as_str())
    } else {
        match url_parse_with_params(full.as_str(), &pairs) {
            Some(u) => Ok(u),
            None => url_parse(full.as_str()),
        }
    };
    match parsed {
        Ok(u) => Ok(u),
        Err(e) => {
            let mut m = chars_of("Invalid URL: ");
            let text = chars_of(url_error_message(&e).as_str());
            push_all(&mut m, text.as_slice());
            Err(string_from_chars(m.as_slice()))
        },
    }
}

/// `key=value` for each entry, joined with `'&'`.
pub open spec fn query_text(params: Entries) -> Seq<char>
    decreases params.len(),
{
    if params.len() == 0 {
        seq![]
    } else if params.len() == 1 {
        params[0].0 + seq!['='] + params[0].1
    } else {
        query_text(params.drop_last()) + seq!['&'] + params.last().0 + seq!['='] + params.last().1
    }
}

/// The URL preview of the Request tab: the path with `{name}` replaced by
/// each non-empty path value (empty ones keep their placeholder), followed,
/// when some query value is non-empty, by `'?'` and `name=value` pairs of
/// the non-empty query values joined with `'&'` (not encoded).
pub fn build_preview_url(path_template: &str, path_params: &StringMap, query_params: &StringMap) -> (r: String)
    ensures
        ({
            let path = substitute(path_template@, path_params@, true);
            let q = non_empty(query_params@);
            r@ == if q.len() == 0 {
                path
            } else {
                path + seq!['?'] + query_text(q)
            }
        }),
{
    let mut path = substitute_params(path_template, path_params, true);
    let pairs = non_empty_pairs(query_params);
    if pairs.len() == 0 {
        return string_from_chars(path.as_slice());
    }
    let ghost q = entry_views_of(pairs@);
    let mut text: Vec<char> = Vec::new();
    let mut i: usize = 0;
    while i < pairs.len()
        invariant
            q == entry_views_of(pairs@),
            i <= pairs@.len(),
            text@ == query_text(q.take(i as int)),
        decreases pairs@.len() - i,
    {
        assert(q.take(i + 1).drop_last() =~= q.take(i as int));
        assert(q.take(i + 1).last() == (pairs@[i as int].0@, pairs@[i as int].1@));
        if i > 0 {
            text.push('&');
        }
        let k = chars_of(pairs[i].0.as_str());
        push_all(&mut text, k.as_slice());
        text.push('=');
        let v = chars_of(pairs[i].1.as_str());
        push_all(&mut text, v.as_slice());
        i = i + 1;
        proof {
            if i == 1 {
                assert(q.take(1) =~= seq![q[0]]);
            }
        }
    }
    assert(q.take(i as int) =~= q);
    path.push('?');
    push_all(&mut path, text.as_slice());
    string_from_chars(path.as_slice())
}

} // verus!

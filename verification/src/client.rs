//! URLs of the service, relative to the client's base URL.

use crate::crud::text_view;
use crate::file::file_path;
use crate::file::file_query;
use crate::file::get_url;
use crate::file::record_collection;
use crate::file::record_id;
use crate::filter::filter;
use crate::filter::filtered;
use crate::text::chars_of;
use crate::text::skip_leading;
use crate::text::string_of;
use crate::text::trim_leading;
use crate::utils::build_relative_url;
use crate::utils::query_view;
use crate::utils::relative_url;
use serde_json::Value;
use vstd::prelude::*;

verus! {

/// `s` without its trailing occurrences of `c`.
pub open spec fn trim_trailing(s: Seq<char>, c: char) -> Seq<char>
    decreases s.len(),
{
    if s.len() > 0 && s.last() == c {
        trim_trailing(s.drop_last(), c)
    } else {
        s
    }
}

/// The base URL as the client keeps it: `/` for an empty one, else the
/// URL without trailing slashes.
pub open spec fn normalized_base(base: Seq<char>) -> Seq<char> {
    if base.len() == 0 {
        seq!['/']
    } else {
        trim_trailing(base, '/')
    }
}

/// A prefix that stops before a character other than `c` is the trimmed sequence.
pub proof fn lemma_trim_trailing_unique(s: Seq<char>, c: char, n: int)
    requires
        0 <= n <= s.len(),
        forall|j: int| n <= j < s.len() ==> s[j] == c,
        n > 0 ==> s[n - 1] != c,
    ensures
        trim_trailing(s, c) == s.take(n),
    decreases s.len(),
{
    if s.len() > 0 && s.last() == c {
        assert(n < s.len());
        let t = s.drop_last();
        assert forall|j: int| n <= j < t.len() implies t[j] == c by {
            assert(t[j] == s[j]);
        }
        lemma_trim_trailing_unique(t, c, n);
        assert(t.take(n) =~= s.take(n));
    } else {
        if n < s.len() {
            assert(s[s.len() - 1] == c);
        }
        assert(s.take(n) =~= s);
    }
}

/// Brings a base URL into the form the client keeps.
pub fn normalize_base_url(base_url: &str) -> (r: String)
    ensures
        r@ == normalized_base(base_url@),
{
    let chars = chars_of(base_url);
    if chars.len() == 0 {
        proof {
            reveal_strlit("/");
            assert("/"@ =~= seq!['/']);
        }
        return "/".to_owned();
    }
    let mut n: usize = chars.len();
    while n > 0 && chars[n - 1] == '/'
        invariant
            n <= chars.len(),
            forall|j: int| n <= j < chars.len() ==> chars@[j] == '/',
        decreases n,
    {
        n -= 1;
    }
    proof {
        lemma_trim_trailing_unique(chars@, '/', n as int);
    }
    string_of(&crate::text::sub_chars(&chars, 0, n))
}

/// The base URL with a `/` at its end, supplied when it has none.
pub open spec fn with_trailing_slash(base: Seq<char>) -> Seq<char> {
    if base.len() > 0 && base.last() == '/' {
        base
    } else {
        base + seq!['/']
    }
}

/// The full URL of a path with query parameters under a base URL: one `/`
/// stands between the base and the path.
pub open spec fn full_url(base: Seq<char>, path: Seq<char>, query: Seq<(Seq<char>, Value)>) -> Seq<
    char,
> {
    with_trailing_slash(base) + trim_leading(relative_url(path, query), '/')
}

/// Builds the full URL of a path with query parameters under a base URL.
pub fn build_url(base_url: &str, path: &str, query: &Vec<(String, Value)>) -> (r: String)
    ensures
        r@ == full_url(base_url@, path@, query_view(query@)),
{
    let rel = build_relative_url(path, query);
    let rel_chars = chars_of(rel.as_str());
    let tail = string_of(&skip_leading(&rel_chars, '/'));
    let base_chars = chars_of(base_url);
    let mut url = base_url.to_owned();
    if !(base_chars.len() > 0 && base_chars[base_chars.len() - 1] == '/') {
        proof {
            reveal_strlit("/");
            assert("/"@ =~= seq!['/']);
        }
        url.append("/");
    }
    url.append(tail.as_str());
    url
}

/// The name under which the client presents itself.
pub const USER_AGENT: &'static str = "bosbase-rust-sdk/0.1.0";

/// The language that a client asks for unless told otherwise.
pub const DEFAULT_LANG: &'static str = "en-US";

/// How long a client waits for an answer unless told otherwise, in milliseconds.
pub const DEFAULT_TIMEOUT_MS: u64 = 30000;

/// The settings of a client: where the server is, which language is asked
/// for, and how long an answer is waited for.
#[derive(Debug, Clone)]
pub struct BosBase {
    base_url: String,
    lang: String,
    timeout_ms: u64,
}

/// The settings of a client as plain values.
pub struct BosBaseView {
    pub base_url: Seq<char>,
    pub lang: Seq<char>,
    pub timeout_ms: u64,
}

impl View for BosBase {
    type V = BosBaseView;

    closed spec fn view(&self) -> BosBaseView {
        BosBaseView { base_url: self.base_url@, lang: self.lang@, timeout_ms: self.timeout_ms }
    }
}

impl BosBase {
    /// The settings for a server, with the usual language and timeout.
    pub fn new(base_url: String) -> (r: Self)
        ensures
            r@.base_url == normalized_base(base_url@),
            r@.lang == DEFAULT_LANG@,
            r@.timeout_ms == DEFAULT_TIMEOUT_MS,
    {
        Self::with_options(base_url, None, None)
    }

    /// The settings for a server: the base URL in its normal form, and the
    /// language and the timeout given, or the usual ones.
    pub fn with_options(base_url: String, lang: Option<String>, timeout_ms: Option<u64>) -> (r: Self)
        ensures
            r@.base_url == normalized_base(base_url@),
            r@.lang == match lang {
                Some(l) => l@,
                None => DEFAULT_LANG@,
            },
            r@.timeout_ms == match timeout_ms {
                Some(t) => t,
                None => DEFAULT_TIMEOUT_MS,
            },
    {
        BosBase {
            base_url: normalize_base_url(base_url.as_str()),
            lang: match lang {
                Some(l) => l,
                None => DEFAULT_LANG.to_owned(),
            },
            timeout_ms: match timeout_ms {
                Some(t) => t,
                None => DEFAULT_TIMEOUT_MS,
            },
        }
    }

    /// The base URL.
    pub fn base_url(&self) -> (r: &str)
        ensures
            r@ == self@.base_url,
    {
        self.base_url.as_str()
    }

    /// The language asked for.
    pub fn lang(&self) -> (r: &str)
        ensures
            r@ == self@.lang,
    {
        self.lang.as_str()
    }

    /// How long an answer is waited for, in milliseconds.
    pub fn timeout_ms(&self) -> (r: u64)
        ensures
            r == self@.timeout_ms,
    {
        self.timeout_ms
    }

    /// Builds the full URL of a path with query parameters.
    pub fn build_url(&self, path: &str, query: &Vec<(String, Value)>) -> (r: String)
        ensures
            r@ == full_url(self@.base_url, path@, query_view(query@)),
    {
        build_url(self.base_url.as_str(), path, query)
    }

    /// Fills the placeholders of a filter expression with the parameters.
    pub fn filter(&self, expr: &str, params: &Vec<(String, Value)>) -> (r: String)
        ensures
            r@ == filtered(expr@, query_view(params@)),
    {
        filter(expr, params)
    }

    /// Builds the URL of a file of a record.
    pub fn get_file_url(
        &self,
        record: &Value,
        filename: &str,
        thumb: Option<String>,
        token: Option<String>,
        download: Option<bool>,
        query: Vec<(String, Value)>,
    ) -> (r: String)
        ensures
            r@ == full_url(
                self@.base_url,
                file_path(record_collection(*record), record_id(*record), filename@),
                file_query(query_view(query@), text_view(thumb), text_view(token), download),
            ),
    {
        get_url(self.base_url.as_str(), record, filename, thumb, token, download, query)
    }
}

} // verus!

//! A validated API base URL: known to accept appended path segments
//! and to use the `http` or `https` scheme, and constructible only
//! through the validating conversion or the proven-valid default.

use vstd::prelude::*;
use vstd::string::StringExecFns;
use url::Url;
use crate::error::Error;

verus! {

/// Declares url::Url so that the validating conversion can take a
/// parsed URL; the value is opaque here, and the wrappers below read
/// the few plain facts the validation needs.
#[verifier::external_type_specification]
#[verifier::external_body]
pub struct ExUrl(Url);

/// Relies on url::Url::cannot_be_a_base: true exactly for URLs that
/// cannot serve as a base for appended path segments (opaque-path URLs
/// such as `data:`).
#[verifier::external_body]
fn url_cannot_be_a_base(u: &Url) -> bool {
    u.cannot_be_a_base()
}

/// Relies on url::Url::scheme: the URL's scheme, which the parser
/// stores lower-cased.
#[verifier::external_body]
fn url_scheme(u: &Url) -> String {
    u.scheme().to_owned()
}

/// Relies on url::Url::as_str: the URL's serialization.
#[verifier::external_body]
fn url_serialization(u: &Url) -> String {
    u.as_str().to_owned()
}

/// The scheme of an HTTP(S) URL.
pub open spec fn is_http_scheme(s: Seq<char>) -> bool {
    s == "http"@ || s == "https"@
}

/// The reason a candidate base URL is rejected, if any: URLs that cannot
/// take appended path segments are rejected first, after that URLs whose scheme
/// is neither `http` nor `https`; everything else is accepted.
pub open spec fn base_url_problem(cannot_be_a_base: bool, scheme: Seq<char>) -> Option<Seq<char>> {
    if cannot_be_a_base {
        Some("expecting a base URL"@)
    } else if !is_http_scheme(scheme) {
        Some("expecting an HTTP URL"@)
    } else {
        None
    }
}

/// Decides whether a URL with the given traits is accepted as a base
/// URL, returning the rejection reason otherwise.
pub fn check_base_url(cannot_be_a_base: bool, scheme: &String) -> (r: Option<&'static str>)
    ensures
        match base_url_problem(cannot_be_a_base, scheme@) {
            Some(reason) => r matches Some(s) && s@ == reason,
            None => r is None,
        },
{
    if cannot_be_a_base {
        Some("expecting a base URL")
    } else {
        let http: String = String::from_str("http");
        let https: String = String::from_str("https");
        if scheme.eq(&http) || scheme.eq(&https) {
            None
        } else {
            Some("expecting an HTTP URL")
        }
    }
}

/// A URL accepted by [`check_base_url`], kept in its serialized form
/// together with its scheme.
#[derive(PartialEq, Clone, Debug)]
pub struct BaseUrl {
    serialization: String,
    scheme: String,
}

impl BaseUrl {
    /// The validation invariant: the scheme is `http` or `https`.
    pub closed spec fn wf(self) -> bool {
        is_http_scheme(self.scheme@)
    }

    /// The serialized URL, as a character sequence.
    pub closed spec fn spec_serialization(self) -> Seq<char> {
        self.serialization@
    }

    /// The URL in its serialized form.
    pub fn as_url(&self) -> (r: &String)
        ensures
            r@ == self.spec_serialization(),
    {
        &self.serialization
    }

    /// Gives up the URL's serialized form.
    pub fn into_inner(self) -> (r: String)
        ensures
            r@ == self.spec_serialization(),
    {
        self.serialization
    }

    /// Validates a parsed URL as a usable API base. Accepted exactly when
    /// the URL can take appended path segments and its scheme is `http` or
    /// `https`; a rejection carries the serialized URL and the reason.
    pub fn try_from(value: Url) -> (r: Result<BaseUrl, Error>)
        ensures
            match r {
                Ok(b) => b.wf(),
                Err(e) => e matches Error::Url { url, reason } && (reason@
                    == "expecting a base URL"@ || reason@ == "expecting an HTTP URL"@),
            },
    {
        let cannot_be_a_base = url_cannot_be_a_base(&value);
        let scheme = url_scheme(&value);
        let serialization = url_serialization(&value);
        match check_base_url(cannot_be_a_base, &scheme) {
            Some(reason) => Err(
                Error::Url { url: serialization, reason: String::from_str(reason) },
            ),
            None => Ok(BaseUrl { serialization, scheme }),
        }
    }
}

/// Every URL whose scheme is neither `http` nor `https` is rejected
/// with the `expecting an HTTP URL` reason, and every URL that cannot
/// be a base is rejected with the `expecting a base URL` reason.
pub proof fn lemma_url_validation(cannot_be_a_base: bool, scheme: Seq<char>)
    ensures
        !cannot_be_a_base && !is_http_scheme(scheme) ==> base_url_problem(cannot_be_a_base, scheme)
            == Some("expecting an HTTP URL"@),
        cannot_be_a_base ==> base_url_problem(cannot_be_a_base, scheme) == Some(
            "expecting a base URL"@,
        ),
        base_url_problem(cannot_be_a_base, scheme) is None <==> !cannot_be_a_base
            && is_http_scheme(scheme),
{
}

/// The scheme of the default (production) endpoint is accepted by the
/// base-URL validation.
pub proof fn lemma_default_scheme_accepted()
    ensures
        base_url_problem(false, "https"@) is None,
{
}

impl Default for BaseUrl {
    /// The provider's production endpoint, `https://api.postmarkapp.com/`,
    /// in the normalized serialization the URL parser would give it.
    fn default() -> (r: BaseUrl)
        ensures
            r.wf(),
            r.spec_serialization() == "https://api.postmarkapp.com/"@,
    {
        BaseUrl {
            serialization: String::from_str("https://api.postmarkapp.com/"),
            scheme: String::from_str("https"),
        }
    }
}

} // verus!

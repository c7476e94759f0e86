//! The destinations of a relay: which addresses are accepted as places to
//! forward a trap to.
//!
//! An address is parsed as a URL by the `url` crate, which `reqwest` hands on.
//! The scheme that this parse finds is named by `url_scheme`; the rule on
//! schemes and the wording of the errors are defined here and proved.

use crate::text::same_text;
use reqwest::Url;
use vstd::prelude::*;
use vstd::string::StringExecFns;

verus! {

/// Why an address was refused as a destination.
#[derive(Debug, PartialEq, Eq)]
pub enum ConfigurationError {
    /// The address is a URL, but its scheme, held here, is neither `http` nor
    /// `https`.
    InvalidScheme(String),
    /// The address, held here, is not a URL.
    InvalidUrl(String),
}

/// An error of configuration as plain sequences of characters.
pub enum ConfigurationErrorView {
    InvalidScheme(Seq<char>),
    InvalidUrl(Seq<char>),
}

impl View for ConfigurationError {
    type V = ConfigurationErrorView;

    open spec fn view(&self) -> ConfigurationErrorView {
        match self {
            ConfigurationError::InvalidScheme(scheme) => ConfigurationErrorView::InvalidScheme(
                scheme@,
            ),
            ConfigurationError::InvalidUrl(address) => ConfigurationErrorView::InvalidUrl(address@),
        }
    }
}

impl Clone for ConfigurationError {
    fn clone(&self) -> (r: Self)
        ensures
            r@ == self@,
    {
        match self {
            ConfigurationError::InvalidScheme(scheme) => ConfigurationError::InvalidScheme(
                scheme.clone(),
            ),
            ConfigurationError::InvalidUrl(address) => ConfigurationError::InvalidUrl(
                address.clone(),
            ),
        }
    }
}

/// What the `url` crate finds when it parses `address` as an absolute URL:
/// `None` where the address is no such URL, else the scheme of the URL, in
/// lower case and without the colon after it.
pub uninterp spec fn url_scheme(address: Seq<char>) -> Option<Seq<char>>;

/// Whether a scheme is one that a trap can be forwarded over.
pub open spec fn accepted_scheme(scheme: Seq<char>) -> bool {
    scheme == "http"@ || scheme == "https"@
}

/// Why an address is refused as a destination, or `None` where it is
/// accepted: an address is accepted where it is a URL whose scheme is `http`
/// or `https`; it is refused for its scheme where it is a URL with another,
/// and as a whole where it is no URL.
pub open spec fn rejection(address: Seq<char>) -> Option<ConfigurationErrorView> {
    match url_scheme(address) {
        Some(scheme) => if accepted_scheme(scheme) {
            None
        } else {
            Some(ConfigurationErrorView::InvalidScheme(scheme))
        },
        None => Some(ConfigurationErrorView::InvalidUrl(address)),
    }
}

/// The words in which an error is reported.
pub open spec fn message_of(error: ConfigurationErrorView) -> Seq<char> {
    match error {
        ConfigurationErrorView::InvalidScheme(scheme) => "Invalid URL scheme: "@ + scheme,
        ConfigurationErrorView::InvalidUrl(address) => "Invalid URL: "@ + address,
    }
}

/// Every address falls under exactly one of three cases: it is a URL with the
/// scheme `http` or `https`, and is accepted; it is a URL with another scheme,
/// and is refused with that scheme as the cause; or it is no URL, and is
/// refused with the address itself as the cause.
pub proof fn lemma_rejection_by_cases(address: Seq<char>)
    ensures
        match url_scheme(address) {
            Some(scheme) => if scheme == "http"@ || scheme == "https"@ {
                rejection(address) is None
            } else {
                rejection(address) == Some(ConfigurationErrorView::InvalidScheme(scheme))
            },
            None => rejection(address) == Some(ConfigurationErrorView::InvalidUrl(address)),
        },
{
}

/// `Url::parse` and then `Url::scheme` of the `url` crate, with the scheme
/// copied out as a string. Not proved: that the scheme handed back is the one
/// that `url_scheme` names for this address, with `None` where the parse
/// fails.
#[verifier::external_body]
fn scheme_of(address: &str) -> (r: Option<String>)
    ensures
        r.deep_view() == url_scheme(address@),
{
    match Url::parse(address) {
        Ok(url) => Some(url.scheme().to_owned()),
        Err(_) => None,
    }
}

impl ConfigurationError {
    /// The words in which this error is reported.
    pub fn message(&self) -> (r: String)
        ensures
            r@ == message_of(self@),
    {
        match self {
            ConfigurationError::InvalidScheme(scheme) => String::from_str(
                "Invalid URL scheme: ",
            ).concat(scheme.as_str()),
            ConfigurationError::InvalidUrl(address) => String::from_str("Invalid URL: ").concat(
                address.as_str(),
            ),
        }
    }
}

/// What is to be made of an address whose parse as a URL gave `scheme`: `None`
/// where it is no URL, else the scheme of the URL.
pub fn judge_scheme(address: &str, scheme: Option<String>) -> (r: Result<(), ConfigurationError>)
    ensures
        match r {
            Ok(()) => scheme matches Some(s) && accepted_scheme(s@),
            Err(ConfigurationError::InvalidScheme(refused)) => scheme matches Some(s)
                && !accepted_scheme(s@) && refused@ == s@,
            Err(ConfigurationError::InvalidUrl(refused)) => scheme is None && refused@ == address@,
        },
{
    match scheme {
        Some(scheme) => {
            if same_text(scheme.as_str(), "http") || same_text(scheme.as_str(), "https") {
                Ok(())
            } else {
                Err(ConfigurationError::InvalidScheme(scheme))
            }
        },
        None => Err(ConfigurationError::InvalidUrl(address.to_owned())),
    }
}

/// Accepts an address as a destination where it is a URL with the scheme
/// `http` or `https`, and says why where it is not.
pub fn validate_destination(address: &str) -> (r: Result<(), ConfigurationError>)
    ensures
        match r {
            Ok(()) => rejection(address@) is None,
            Err(error) => rejection(address@) == Some(error@),
        },
{
    judge_scheme(address, scheme_of(address))
}

/// Accepts an address as `validate_destination` does, and reports a refusal
/// in words.
pub fn is_valid_address(address: String) -> (r: Result<(), String>)
    ensures
        match r {
            Ok(()) => rejection(address@) is None,
            Err(words) => rejection(address@) matches Some(error) && words@ == message_of(error),
        },
{
    match validate_destination(address.as_str()) {
        Ok(()) => Ok(()),
        Err(error) => Err(error.message()),
    }
}

} // verus!

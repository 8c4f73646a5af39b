//! The daemon's address, and the addresses of its pages.
use vstd::prelude::*;
use crate::cli::arguments;
use crate::cli::error;
use crate::cli::error::{CliError, CliErrorModel};
use crate::number;
use crate::text;

verus! {

/// The daemon's address where none is configured.
pub const DEFAULT_DAEMON_URL: &'static str = "http://127.0.0.1:3030";

/// The parts of a URL.
#[derive(Debug, PartialEq, Eq)]
pub struct UrlParts {
    pub scheme: String,
    pub username: String,
    pub password: Option<String>,
    pub host: Option<String>,
    pub path: String,
    pub query: Option<String>,
    pub fragment: Option<String>,
}

/// The model of a URL's parts.
pub struct UrlModel {
    pub scheme: Seq<char>,
    pub username: Seq<char>,
    pub password: Option<Seq<char>>,
    pub host: Option<Seq<char>>,
    pub path: Seq<char>,
    pub query: Option<Seq<char>>,
    pub fragment: Option<Seq<char>>,
}

impl View for UrlParts {
    type V = UrlModel;

    open spec fn view(&self) -> UrlModel {
        UrlModel {
            scheme: self.scheme@,
            username: self.username@,
            password: text::optional(self.password),
            host: text::optional(self.host),
            path: self.path@,
            query: text::optional(self.query),
            fragment: text::optional(self.fragment),
        }
    }
}

/// The view of the parts, where there are any.
pub open spec fn parts_model(parts: Option<UrlParts>) -> Option<UrlModel> {
    match parts {
        Some(value) => Some(value@),
        None => None,
    }
}

/// The parts that `reqwest::Url` reads in a text; none where the text is no URL.
pub uninterp spec fn url_parts(value: Seq<char>) -> Option<UrlModel>;

/// `reqwest::Url::parse` reads a text as a URL, which hands out its parts.
#[verifier::external_body]
fn parse_url(value: &str) -> (parts: Option<UrlParts>)
    ensures
        parts_model(parts) == url_parts(value@),
{
    let url = reqwest::Url::parse(value).ok()?;
    Some(
        UrlParts {
            scheme: url.scheme().to_owned(),
            username: url.username().to_owned(),
            password: url.password().map(str::to_owned),
            host: url.host_str().map(str::to_owned),
            path: url.path().to_owned(),
            query: url.query().map(str::to_owned),
            fragment: url.fragment().map(str::to_owned),
        },
    )
}

/// The parts of a URL, where the text is one.
pub fn read_url(value: &str) -> (parts: Option<UrlParts>)
    ensures
        parts_model(parts) == url_parts(value@),
{
    parse_url(value)
}

// ---- the daemon ----

/// A text without the slashes at its end.
pub open spec fn without_slashes(s: Seq<char>) -> Seq<char>
    decreases s.len(),
{
    if s.len() > 0 && s.last() == '/' {
        without_slashes(s.drop_last())
    } else {
        s
    }
}

fn trim_slashes(value: &str) -> (result: String)
    ensures
        result@ == without_slashes(value@),
{
    let chars = text::chars_of(value);
    let mut end: usize = chars.len();
    assert(value@.take(end as int) =~= value@);
    while end > 0 && chars[end - 1] == '/'
        invariant
            end <= chars.len(),
            chars@ == value@,
            without_slashes(value@) == without_slashes(value@.take(end as int)),
        decreases end,
    {
        assert(value@.take(end as int).drop_last() =~= value@.take(end - 1));
        end -= 1;
    }
    let rest = vstd::slice::slice_subrange(chars.as_slice(), 0, end);
    assert(rest@ =~= value@.take(end as int));
    text::string_of(rest)
}

/// A failure of the configuration.
pub open spec fn configuration_failure(message: Seq<char>) -> CliErrorModel {
    error::plain("configuration_error"@, message)
}

/// Whether the parts are those of a bare origin.
pub open spec fn is_bare_origin(parts: UrlModel) -> bool {
    &&& parts.host is Some
    &&& parts.username.len() == 0
    &&& parts.password is None
    &&& parts.query is None
    &&& parts.fragment is None
    &&& parts.path == "/"@
}

/// The daemon's address that a value with these parts stands for: an HTTP or HTTPS origin,
/// without the slashes at its end.
pub open spec fn daemon_address(value: Seq<char>, parts: Option<UrlModel>) -> Result<
    Seq<char>,
    CliErrorModel,
> {
    match parts {
        None => Err(configuration_failure("GLIM_DAEMON_URL is not a valid URL"@)),
        Some(found) => if !(found.scheme == "http"@ || found.scheme == "https"@) {
            Err(configuration_failure("GLIM_DAEMON_URL must use HTTP or HTTPS"@))
        } else if !is_bare_origin(found) {
            Err(configuration_failure("GLIM_DAEMON_URL must contain only an HTTP origin"@))
        } else {
            Ok(without_slashes(value))
        },
    }
}

/// Checks a value of `GLIM_DAEMON_URL`, given its parts.
pub fn check_daemon_url(value: &str, parts: &Option<UrlParts>) -> (result: Result<String, CliError>)
    ensures
        match (result, daemon_address(value@, parts_model(*parts))) {
            (Ok(address), Ok(model)) => address@ == model,
            (Err(failure), Err(model)) => failure@ == model,
            _ => false,
        },
{
    let found = match parts {
        Some(found) => found,
        None => {
            return Err(CliError::new("configuration_error", "GLIM_DAEMON_URL is not a valid URL"));
        },
    };
    if !text::same_text(found.scheme.as_str(), "http") && !text::same_text(
        found.scheme.as_str(),
        "https",
    ) {
        return Err(CliError::new("configuration_error", "GLIM_DAEMON_URL must use HTTP or HTTPS"));
    }
    if found.host.is_none() || !text::empty(found.username.as_str()) || found.password.is_some()
        || found.query.is_some() || found.fragment.is_some() || !text::same_text(
        found.path.as_str(),
        "/",
    ) {
        return Err(
            CliError::new(
                "configuration_error",
                "GLIM_DAEMON_URL must contain only an HTTP origin",
            ),
        );
    }
    Ok(trim_slashes(value))
}

/// The value of `GLIM_DAEMON_URL`, or the default.
pub open spec fn configured_url(value: Option<Seq<char>>) -> Seq<char> {
    match value {
        Some(content) => content,
        None => DEFAULT_DAEMON_URL@,
    }
}

/// The daemon's address. `value` is that of `GLIM_DAEMON_URL`, where it is set.
pub fn daemon_url(value: Option<&str>) -> (result: Result<String, CliError>)
    ensures
        ({
            let chosen = configured_url(
                match value {
                    Some(content) => Some(content@),
                    None => None,
                },
            );
            match (result, daemon_address(chosen, url_parts(chosen))) {
                (Ok(address), Ok(model)) => address@ == model,
                (Err(failure), Err(model)) => failure@ == model,
                _ => false,
            }
        }),
{
    let chosen = match value {
        Some(content) => content,
        None => DEFAULT_DAEMON_URL,
    };
    check_daemon_url(chosen, &read_url(chosen))
}

// ---- pages ----

/// The page of a session.
pub open spec fn session_page(base: Seq<char>, public_id: Seq<char>) -> Seq<char> {
    base + "/sessions/"@ + public_id
}

/// The place of a post on the page of its session.
pub open spec fn post_place(base: Seq<char>, public_id: Seq<char>, post_id: i64) -> Seq<char> {
    session_page(base, public_id) + "#post-"@ + number::signed_decimal(post_id as int)
}

/// The page of a session.
pub fn viewer_url(base: &str, public_id: &str) -> (url: String)
    ensures
        url@ == session_page(base@, public_id@),
{
    text::joined3(base, "/sessions/", public_id)
}

/// The place of a post on the page of its session.
pub fn post_url(base: &str, public_id: &str, post_id: i64) -> (url: String)
    ensures
        url@ == post_place(base@, public_id@, post_id),
{
    let page = viewer_url(base, public_id);
    let digits = number::format_i64(post_id);
    text::joined3(page.as_str(), "#post-", digits.as_str())
}

/// Whether the argument of `open` is meant as a URL.
pub open spec fn is_meant_as_url(value: Seq<char>) -> bool {
    text::has_prefix(value, "http://"@) || text::has_prefix(value, "https://"@)
}

/// What `open` opens: a URL with a host, or the page of a session. `parts` are those of the
/// argument, and `base` is the daemon's address or why there is none.
pub open spec fn opened_url(
    value: Seq<char>,
    parts: Option<UrlModel>,
    base: Result<Seq<char>, CliErrorModel>,
) -> Result<Seq<char>, CliErrorModel> {
    if is_meant_as_url(value) {
        match parts {
            Some(found) if found.host is Some => Ok(value),
            _ => Err(error::usage("session URL is invalid"@)),
        }
    } else {
        match base {
            Err(failure) => Err(failure),
            Ok(address) => if arguments::is_public_id(value) {
                Ok(session_page(address, value))
            } else {
                Err(arguments::public_id_failure())
            },
        }
    }
}

/// What a result of a string and a failure is.
pub open spec fn address_model(base: Result<String, CliError>) -> Result<Seq<char>, CliErrorModel> {
    match base {
        Ok(address) => Ok(address@),
        Err(failure) => Err(failure@),
    }
}

/// What `open` opens, given the parts of its argument and the daemon's address.
pub fn open_url_with(value: &str, parts: &Option<UrlParts>, base: Result<String, CliError>) -> (result:
    Result<String, CliError>)
    ensures
        address_model(result) == opened_url(value@, parts_model(*parts), address_model(base)),
{
    if text::text_starts_with(value, "http://") || text::text_starts_with(value, "https://") {
        let has_host = match parts {
            Some(found) => found.host.is_some(),
            None => false,
        };
        return if has_host {
            Ok(text::copy_of(value))
        } else {
            Err(CliError::usage("session URL is invalid"))
        };
    }
    let address = match base {
        Ok(address) => address,
        Err(failure) => {
            return Err(failure);
        },
    };
    match arguments::session_public_id(value) {
        Ok(_) => Ok(viewer_url(address.as_str(), value)),
        Err(failure) => Err(failure),
    }
}

/// What `open` opens. `configured` is the value of `GLIM_DAEMON_URL`, where it is set.
pub fn open_url(value: &str, configured: Option<&str>) -> (result: Result<String, CliError>)
    ensures
        ({
            let chosen = configured_url(
                match configured {
                    Some(content) => Some(content@),
                    None => None,
                },
            );
            address_model(result) == opened_url(
                value@,
                url_parts(value@),
                daemon_address(chosen, url_parts(chosen)),
            )
        }),
{
    let parts = read_url(value);
    let base = daemon_url(configured);
    open_url_with(value, &parts, base)
}

proof fn lemma_no_slash_at_end(s: Seq<char>)
    ensures
        without_slashes(s).len() > 0 ==> without_slashes(s).last() != '/',
    decreases s.len(),
{
    if s.len() > 0 && s.last() == '/' {
        lemma_no_slash_at_end(s.drop_last());
    }
}

/// The daemon's address never ends with a slash, so that the paths that follow it start with the
/// only one.
pub proof fn law_addresses_end_plain(value: Seq<char>, parts: Option<UrlModel>)
    ensures
        daemon_address(value, parts) matches Ok(address) ==> (address.len() > 0 ==> address.last()
            != '/'),
{
    lemma_no_slash_at_end(value);
}

} // verus!

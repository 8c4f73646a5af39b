//! The parts of the daemon's configuration: where its files stand, and how much it accepts. The
//! environment weighs more than the configuration file, and the file more than the defaults.
use vstd::prelude::*;
use vstd::utf8::*;
use crate::bytes;
use crate::daemon::origin;
use crate::daemon::origin::{IpAddress, SocketAddress};
use crate::number;
use crate::path;
use crate::text;

verus! {

/// The version of the configuration file.
pub const CONFIG_SCHEMA_VERSION: u32 = 1;

/// The largest configuration file, in bytes.
pub const MAX_CONFIG_BYTES: u64 = 65_536;

/// The largest upload where none is configured: 512 MiB.
pub const DEFAULT_MAX_UPLOAD_BYTES: u64 = 536_870_912;

/// The largest store where none is configured: 20 GiB.
pub const DEFAULT_MAX_FINALIZED_BLOB_BYTES: u64 = 21_474_836_480;

/// How much the daemon accepts.
#[derive(Debug, Clone, Copy, PartialEq, Eq, Structural)]
pub struct DaemonLimits {
    pub max_upload_bytes: u64,
    pub max_finalized_blob_bytes: u64,
}

/// The limits where none are configured.
pub open spec fn default_limits() -> DaemonLimits {
    DaemonLimits {
        max_upload_bytes: DEFAULT_MAX_UPLOAD_BYTES,
        max_finalized_blob_bytes: DEFAULT_MAX_FINALIZED_BLOB_BYTES,
    }
}

impl Default for DaemonLimits {
    fn default() -> (limits: Self)
        ensures
            limits == default_limits(),
    {
        DaemonLimits {
            max_upload_bytes: DEFAULT_MAX_UPLOAD_BYTES,
            max_finalized_blob_bytes: DEFAULT_MAX_FINALIZED_BLOB_BYTES,
        }
    }
}

/// Where the store stands, and whether it was put there explicitly.
#[derive(Debug, Clone, PartialEq, Eq)]
pub struct StoreRoot {
    pub path: Vec<u8>,
    pub explicit_override: bool,
}

impl View for StoreRoot {
    type V = (Seq<u8>, bool);

    open spec fn view(&self) -> (Seq<u8>, bool) {
        (self.path@, self.explicit_override)
    }
}

#[derive(Debug, Clone, PartialEq, Eq)]
pub struct TlsFiles {
    pub certificate: Vec<u8>,
    pub private_key: Vec<u8>,
}

#[derive(Debug, Clone, PartialEq, Eq)]
pub struct TokenAccessConfiguration {
    pub token_file: Vec<u8>,
    pub public_origin: String,
    pub tls: Option<TlsFiles>,
}

#[derive(Debug, Clone, PartialEq, Eq)]
pub struct TrustedProxyAccessConfiguration {
    pub trusted_proxy_ips: Vec<IpAddress>,
    pub public_origin: String,
}

/// Who may use the daemon.
#[derive(Debug, Clone, PartialEq, Eq)]
pub enum AccessConfiguration {
    Local,
    Token(TokenAccessConfiguration),
    TrustedProxy(TrustedProxyAccessConfiguration),
}

/// The model of an access configuration.
pub enum AccessModel {
    Local,
    Token { token_file: Seq<u8>, public_origin: Seq<char>, tls: Option<(Seq<u8>, Seq<u8>)> },
    TrustedProxy { ips: Seq<IpAddress>, public_origin: Seq<char> },
}

/// The two paths of a TLS configuration.
pub open spec fn tls_model(tls: Option<TlsFiles>) -> Option<(Seq<u8>, Seq<u8>)> {
    match tls {
        Some(files) => Some((files.certificate@, files.private_key@)),
        None => None,
    }
}

impl View for AccessConfiguration {
    type V = AccessModel;

    open spec fn view(&self) -> AccessModel {
        match *self {
            AccessConfiguration::Local => AccessModel::Local,
            AccessConfiguration::Token(token) => AccessModel::Token {
                token_file: token.token_file@,
                public_origin: token.public_origin@,
                tls: tls_model(token.tls),
            },
            AccessConfiguration::TrustedProxy(proxy) => AccessModel::TrustedProxy {
                ips: proxy.trusted_proxy_ips@,
                public_origin: proxy.public_origin@,
            },
        }
    }
}

/// What the daemon runs with.
#[derive(Debug, PartialEq, Eq)]
pub struct DaemonConfiguration {
    pub store: StoreRoot,
    pub bind: SocketAddress,
    pub access: AccessConfiguration,
    pub limits: DaemonLimits,
}

/// The model of a configuration.
pub struct ConfigurationModel {
    pub store: (Seq<u8>, bool),
    pub bind: SocketAddress,
    pub access: AccessModel,
    pub limits: DaemonLimits,
}

impl View for DaemonConfiguration {
    type V = ConfigurationModel;

    open spec fn view(&self) -> ConfigurationModel {
        ConfigurationModel {
            store: self.store@,
            bind: self.bind,
            access: self.access@,
            limits: self.limits,
        }
    }
}

// ---- environment values ----

/// Whether a value is blank: text that is empty or all white space.
pub open spec fn is_blank_value(value: Seq<u8>) -> bool {
    valid_utf8(value) && text::is_blank(decode_utf8(value))
}

/// Whether a value is blank.
pub fn blank_value(value: &[u8]) -> (yes: bool)
    ensures
        yes == is_blank_value(value@),
{
    match text::utf8_text(value) {
        Some(content) => text::blank(content),
        None => false,
    }
}

/// The text of an environment variable, which must be nonblank UTF-8 where it is set.
pub open spec fn environment_text(name: Seq<char>, value: Option<Seq<u8>>) -> Result<
    Option<Seq<char>>,
    Seq<char>,
> {
    match value {
        None => Ok(None),
        Some(bytes) => if valid_utf8(bytes) && !text::is_blank(decode_utf8(bytes)) {
            Ok(Some(decode_utf8(bytes)))
        } else {
            Err(name + " must be nonblank UTF-8"@)
        },
    }
}

/// Reads the text of an environment variable.
pub fn environment_string(name: &str, value: &Option<Vec<u8>>) -> (result: Result<
    Option<String>,
    String,
>)
    ensures
        match (result, environment_text(name@, bytes::optional(*value))) {
            (Ok(Some(content)), Ok(Some(model))) => content@ == model,
            (Ok(None), Ok(None)) => true,
            (Err(message), Err(model)) => message@ == model,
            _ => false,
        },
{
    match value {
        None => Ok(None),
        Some(bytes) => match text::utf8_text(bytes) {
            Some(content) => {
                if text::blank(content) {
                    Err(text::joined(name, " must be nonblank UTF-8"))
                } else {
                    Ok(Some(text::copy_of(content)))
                }
            },
            None => Err(text::joined(name, " must be nonblank UTF-8")),
        },
    }
}

/// The path of an environment variable, which must not be blank where it is set.
pub open spec fn environment_location(name: Seq<char>, value: Option<Seq<u8>>) -> Result<
    Option<Seq<u8>>,
    Seq<char>,
> {
    match value {
        None => Ok(None),
        Some(bytes) => if is_blank_value(bytes) {
            Err(name + " must not be blank"@)
        } else {
            Ok(Some(bytes))
        },
    }
}

/// Reads the path of an environment variable.
pub fn environment_path(name: &str, value: &Option<Vec<u8>>) -> (result: Result<
    Option<Vec<u8>>,
    String,
>)
    ensures
        match (result, environment_location(name@, bytes::optional(*value))) {
            (Ok(found), Ok(model)) => bytes::optional(found) == model,
            (Err(message), Err(model)) => message@ == model,
            _ => false,
        },
{
    match value {
        None => Ok(None),
        Some(bytes) => {
            if blank_value(bytes) {
                Err(text::joined(name, " must not be blank"))
            } else {
                Ok(Some(text::copy_bytes(bytes)))
            }
        },
    }
}

/// What is wrong with a path that must be absolute.
pub open spec fn absolute_fault(field: Seq<char>, value: Seq<u8>) -> Option<Seq<char>> {
    if is_blank_value(value) || !path::is_absolute(value) {
        Some("daemon configuration "@ + field + " must be an absolute path"@)
    } else {
        None
    }
}

/// Checks that a path is absolute.
pub fn require_absolute_path(field: &str, value: &[u8]) -> (result: Result<(), String>)
    ensures
        origin::tells(result, absolute_fault(field@, value@)),
{
    if blank_value(value) || !path::absolute(value) {
        Err(text::joined3("daemon configuration ", field, " must be an absolute path"))
    } else {
        Ok(())
    }
}

/// The value, where it is set, not blank and absolute.
pub open spec fn usable_base(value: Option<Seq<u8>>) -> Option<Seq<u8>> {
    match value {
        Some(bytes) => if !is_blank_value(bytes) && path::is_absolute(bytes) {
            Some(bytes)
        } else {
            None
        },
        None => None,
    }
}

fn is_usable_base(value: &Option<Vec<u8>>) -> (yes: bool)
    ensures
        yes == usable_base(bytes::optional(*value)) is Some,
{
    match value {
        Some(bytes) => !blank_value(bytes) && path::absolute(bytes),
        None => false,
    }
}

// ---- the store's place ----

/// Where the store stands: where `GLIM_STORE_ROOT` says, or below the data directory.
pub open spec fn store_root(
    override_root: Option<Seq<u8>>,
    xdg_data_home: Option<Seq<u8>>,
    home: Option<Seq<u8>>,
) -> Result<(Seq<u8>, bool), Seq<char>> {
    match override_root {
        Some(root) => if is_blank_value(root) {
            Err("GLIM_STORE_ROOT must not be blank"@)
        } else if !path::is_absolute(root) {
            Err("GLIM_STORE_ROOT must be an absolute path"@)
        } else {
            Ok((root, true))
        },
        None => match (usable_base(xdg_data_home), usable_base(home)) {
            (Some(base), _) => Ok((path::below(base, encode_utf8("glim"@)), false)),
            (None, Some(base)) => Ok(
                (path::below(base, encode_utf8(".local/share/glim"@)), false),
            ),
            (None, None) => Err(
                "no usable data directory: set GLIM_STORE_ROOT for development, XDG_DATA_HOME, or HOME"@,
            ),
        },
    }
}

/// Decides where the store stands.
pub fn resolve_store_root_values(
    override_root: &Option<Vec<u8>>,
    xdg_data_home: &Option<Vec<u8>>,
    home: &Option<Vec<u8>>,
) -> (result: Result<StoreRoot, String>)
    ensures
        match (
            result,
            store_root(
                bytes::optional(*override_root),
                bytes::optional(*xdg_data_home),
                bytes::optional(*home),
            ),
        ) {
            (Ok(root), Ok(model)) => root@ == model,
            (Err(message), Err(model)) => message@ == model,
            _ => false,
        },
{
    if let Some(root) = override_root {
        if blank_value(root) {
            return Err(text::copy_of("GLIM_STORE_ROOT must not be blank"));
        }
        if !path::absolute(root) {
            return Err(text::copy_of("GLIM_STORE_ROOT must be an absolute path"));
        }
        return Ok(StoreRoot { path: text::copy_bytes(root), explicit_override: true });
    }
    if is_usable_base(xdg_data_home) {
        if let Some(base) = xdg_data_home {
            return Ok(
                StoreRoot { path: path::joined_path(base, "glim"), explicit_override: false },
            );
        }
    }
    if is_usable_base(home) {
        if let Some(base) = home {
            return Ok(
                StoreRoot {
                    path: path::joined_path(base, ".local/share/glim"),
                    explicit_override: false,
                },
            );
        }
    }
    Err(
        text::copy_of(
            "no usable data directory: set GLIM_STORE_ROOT for development, XDG_DATA_HOME, or HOME",
        ),
    )
}

/// The configuration file that is read: its path, and whether it must be there.
pub open spec fn configuration_file(
    explicit_path: Option<Seq<u8>>,
    xdg_config_home: Option<Seq<u8>>,
    home: Option<Seq<u8>>,
) -> Result<Option<(Seq<u8>, bool)>, Seq<char>> {
    match explicit_path {
        Some(location) => if is_blank_value(location) {
            Err("GLIM_CONFIG must not be blank"@)
        } else if !path::is_absolute(location) {
            Err("GLIM_CONFIG must be an absolute path"@)
        } else {
            Ok(Some((location, true)))
        },
        None => match (usable_base(xdg_config_home), usable_base(home)) {
            (Some(base), _) => Ok(
                Some((path::below(base, encode_utf8("glim/config.json"@)), false)),
            ),
            (None, Some(base)) => Ok(
                Some((path::below(base, encode_utf8(".config/glim/config.json"@)), false)),
            ),
            (None, None) => Ok(None),
        },
    }
}

/// A configuration file to read.
#[derive(Debug, PartialEq, Eq)]
pub struct ConfigurationFile {
    pub path: Vec<u8>,
    pub required: bool,
}

/// Decides which configuration file is read, if any.
pub fn find_configuration_file(
    explicit_path: &Option<Vec<u8>>,
    xdg_config_home: &Option<Vec<u8>>,
    home: &Option<Vec<u8>>,
) -> (result: Result<Option<ConfigurationFile>, String>)
    ensures
        match (
            result,
            configuration_file(
                bytes::optional(*explicit_path),
                bytes::optional(*xdg_config_home),
                bytes::optional(*home),
            ),
        ) {
            (Ok(Some(file)), Ok(Some(model))) => (file.path@, file.required) == model,
            (Ok(None), Ok(None)) => true,
            (Err(message), Err(model)) => message@ == model,
            _ => false,
        },
{
    if let Some(location) = explicit_path {
        if blank_value(location) {
            return Err(text::copy_of("GLIM_CONFIG must not be blank"));
        }
        if !path::absolute(location) {
            return Err(text::copy_of("GLIM_CONFIG must be an absolute path"));
        }
        return Ok(
            Some(ConfigurationFile { path: text::copy_bytes(location), required: true }),
        );
    }
    if is_usable_base(xdg_config_home) {
        if let Some(base) = xdg_config_home {
            return Ok(
                Some(
                    ConfigurationFile {
                        path: path::joined_path(base, "glim/config.json"),
                        required: false,
                    },
                ),
            );
        }
    }
    if is_usable_base(home) {
        if let Some(base) = home {
            return Ok(
                Some(
                    ConfigurationFile {
                        path: path::joined_path(base, ".config/glim/config.json"),
                        required: false,
                    },
                ),
            );
        }
    }
    Ok(None)
}

// ---- limits ----

/// What is wrong with limits: each must be more than zero, and one upload must fit the store.
pub open spec fn limits_fault(limits: DaemonLimits) -> Option<Seq<char>> {
    if limits.max_upload_bytes == 0 || limits.max_finalized_blob_bytes == 0 {
        Some("daemon limits must be greater than zero"@)
    } else if limits.max_upload_bytes > limits.max_finalized_blob_bytes {
        Some("max_upload_bytes must not exceed max_finalized_blob_bytes"@)
    } else {
        None
    }
}

/// Checks limits.
pub fn validate_limits(limits: DaemonLimits) -> (result: Result<(), String>)
    ensures
        origin::tells(result, limits_fault(limits)),
{
    if limits.max_upload_bytes == 0 || limits.max_finalized_blob_bytes == 0 {
        return Err(text::copy_of("daemon limits must be greater than zero"));
    }
    if limits.max_upload_bytes > limits.max_finalized_blob_bytes {
        return Err(text::copy_of("max_upload_bytes must not exceed max_finalized_blob_bytes"));
    }
    Ok(())
}

/// The limit that an environment variable sets: nonzero decimal bytes.
pub open spec fn environment_limit(name: Seq<char>, value: Option<Seq<u8>>) -> Result<
    Option<nat>,
    Seq<char>,
> {
    match value {
        None => Ok(None),
        Some(bytes) => if !valid_utf8(bytes) {
            Err(name + " must be decimal bytes"@)
        } else if !number::is_digits(decode_utf8(bytes)) {
            Err(name + " must be nonzero decimal bytes"@)
        } else if number::digits_value(decode_utf8(bytes)) > u64::MAX {
            Err(name + " exceeds the supported byte range"@)
        } else if number::digits_value(decode_utf8(bytes)) == 0 {
            Err(name + " must be greater than zero"@)
        } else {
            Ok(Some(number::digits_value(decode_utf8(bytes))))
        },
    }
}

fn all_digits(value: &str) -> (yes: bool)
    ensures
        yes == number::is_digits(value@),
{
    let chars = text::chars_of(value);
    if chars.len() == 0 {
        return false;
    }
    let mut i: usize = 0;
    while i < chars.len()
        invariant
            i <= chars.len(),
            chars@ == value@,
            forall|j: int| 0 <= j < i ==> text::is_digit(#[trigger] chars@[j]),
        decreases chars.len() - i,
    {
        if !('0' <= chars[i] && chars[i] <= '9') {
            assert(!text::is_digit(value@[i as int]));
            return false;
        }
        i += 1;
    }
    true
}

/// Reads the limit that an environment variable sets.
pub fn parse_limit_environment(name: &str, value: &Option<Vec<u8>>) -> (result: Result<
    Option<u64>,
    String,
>)
    ensures
        match (result, environment_limit(name@, bytes::optional(*value))) {
            (Ok(Some(limit)), Ok(Some(model))) => limit == model,
            (Ok(None), Ok(None)) => true,
            (Err(message), Err(model)) => message@ == model,
            _ => false,
        },
{
    let bytes = match value {
        None => {
            return Ok(None);
        },
        Some(bytes) => bytes,
    };
    let content = match text::utf8_text(bytes) {
        Some(content) => content,
        None => {
            return Err(text::joined(name, " must be decimal bytes"));
        },
    };
    if !all_digits(content) {
        return Err(text::joined(name, " must be nonzero decimal bytes"));
    }
    assert(text::is_digit(content@[0]));
    match number::parse_u64(content) {
        None => Err(text::joined(name, " exceeds the supported byte range")),
        Some(limit) => {
            if limit == 0 {
                Err(text::joined(name, " must be greater than zero"))
            } else {
                Ok(Some(limit))
            }
        },
    }
}

/// The limits after the environment: each variable that is set takes the place of a limit. The
/// upload limit's variable is read first.
pub open spec fn limits_after(
    current: DaemonLimits,
    upload: Option<Seq<u8>>,
    finalized: Option<Seq<u8>>,
) -> Result<DaemonLimits, Seq<char>> {
    match (
        environment_limit("GLIM_MAX_UPLOAD_BYTES"@, upload),
        environment_limit("GLIM_MAX_FINALIZED_BLOB_BYTES"@, finalized),
    ) {
        (Err(message), _) => Err(message),
        (Ok(_), Err(message)) => Err(message),
        (Ok(first), Ok(second)) => {
            let limits = DaemonLimits {
                max_upload_bytes: match first {
                    Some(limit) => limit as u64,
                    None => current.max_upload_bytes,
                },
                max_finalized_blob_bytes: match second {
                    Some(limit) => limit as u64,
                    None => current.max_finalized_blob_bytes,
                },
            };
            match limits_fault(limits) {
                Some(message) => Err(message),
                None => Ok(limits),
            }
        },
    }
}

/// The limits after the environment, checked.
pub fn apply_limit_environment(
    current: DaemonLimits,
    upload: &Option<Vec<u8>>,
    finalized: &Option<Vec<u8>>,
) -> (result: Result<DaemonLimits, String>)
    ensures
        match (result, limits_after(current, bytes::optional(*upload), bytes::optional(*finalized))) {
            (Ok(limits), Ok(model)) => limits == model,
            (Err(message), Err(model)) => message@ == model,
            _ => false,
        },
{
    let first = match parse_limit_environment("GLIM_MAX_UPLOAD_BYTES", upload) {
        Ok(first) => first,
        Err(message) => {
            return Err(message);
        },
    };
    let second = match parse_limit_environment("GLIM_MAX_FINALIZED_BLOB_BYTES", finalized) {
        Ok(second) => second,
        Err(message) => {
            return Err(message);
        },
    };
    let limits = DaemonLimits {
        max_upload_bytes: match first {
            Some(limit) => limit,
            None => current.max_upload_bytes,
        },
        max_finalized_blob_bytes: match second {
            Some(limit) => limit,
            None => current.max_finalized_blob_bytes,
        },
    };
    match validate_limits(limits) {
        Ok(_) => Ok(limits),
        Err(message) => Err(message),
    }
}

/// Limits that are accepted let one upload through and never more than the store holds.
pub proof fn law_accepted_limits_fit(
    current: DaemonLimits,
    upload: Option<Seq<u8>>,
    finalized: Option<Seq<u8>>,
)
    requires
        limits_after(current, upload, finalized) is Ok,
    ensures
        ({
            let limits = limits_after(current, upload, finalized)->Ok_0;
            0 < limits.max_upload_bytes <= limits.max_finalized_blob_bytes
        }),
{
}

} // verus!

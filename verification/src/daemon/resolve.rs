//! The daemon's configuration as a whole.
use vstd::prelude::*;
use vstd::utf8::*;
use crate::bytes;
use crate::daemon::access;
use crate::daemon::access::AccessEnvironment;
use crate::daemon::config;
use crate::daemon::config::{
    AccessConfiguration,
    AccessModel,
    ConfigurationModel,
    DaemonConfiguration,
    DaemonLimits,
    StoreRoot,
    TokenAccessConfiguration,
    TrustedProxyAccessConfiguration,
};
use crate::daemon::origin;
use crate::daemon::origin::{IpAddress, OriginParts, PartsModel, SocketAddress};
use crate::text;

verus! {

/// The address that the daemon binds where none is configured.
pub const DEFAULT_BIND: &'static str = "127.0.0.1:3030";

/// Access as a configuration file states it.
#[derive(Debug, PartialEq, Eq)]
#[allow(inconsistent_fields)]
pub enum FileAccessConfiguration {
    Local,
    Token {
        token_file: Vec<u8>,
        public_origin: String,
        tls_certificate: Option<Vec<u8>>,
        tls_private_key: Option<Vec<u8>>,
    },
    TrustedProxy { trusted_proxy_ips: Vec<String>, public_origin: String },
}

/// What a configuration file states.
#[derive(Debug, PartialEq, Eq)]
pub struct FileConfiguration {
    pub schema_version: u32,
    pub store_root: Option<Vec<u8>>,
    pub bind: Option<String>,
    pub access: Option<FileAccessConfiguration>,
    pub limits: Option<DaemonLimits>,
}

// ---- the file's version ----

/// Whether a configuration file has a version that is not read.
pub open spec fn has_foreign_version(file: Option<FileConfiguration>) -> bool {
    file matches Some(found) && found.schema_version != config::CONFIG_SCHEMA_VERSION
}

fn check_version(file: &Option<FileConfiguration>) -> (result: Result<(), String>)
    ensures
        origin::tells(
            result,
            if has_foreign_version(*file) {
                Some("daemon configuration schema_version must be 1"@)
            } else {
                None
            },
        ),
{
    match file {
        Some(found) => {
            if found.schema_version != config::CONFIG_SCHEMA_VERSION {
                Err(text::copy_of("daemon configuration schema_version must be 1"))
            } else {
                Ok(())
            }
        },
        None => Ok(()),
    }
}

// ---- limits ----

/// The limits that a file states, or the defaults.
pub open spec fn file_limits(file: Option<FileConfiguration>) -> DaemonLimits {
    match file {
        Some(found) => match found.limits {
            Some(limits) => limits,
            None => config::default_limits(),
        },
        None => config::default_limits(),
    }
}

fn limits_of(file: &Option<FileConfiguration>) -> (limits: DaemonLimits)
    ensures
        limits == file_limits(*file),
{
    match file {
        Some(found) => match found.limits {
            Some(limits) => limits,
            None => DaemonLimits::default(),
        },
        None => DaemonLimits::default(),
    }
}

/// The limits of a file and the environment.
pub open spec fn resolved_limits(
    file: Option<FileConfiguration>,
    upload: Option<Seq<u8>>,
    finalized: Option<Seq<u8>>,
) -> Result<DaemonLimits, Seq<char>> {
    if has_foreign_version(file) {
        Err("daemon configuration schema_version must be 1"@)
    } else {
        config::limits_after(file_limits(file), upload, finalized)
    }
}

/// Resolves the limits of a file and the environment.
pub fn resolve_daemon_configuration_limit_values(
    file: &Option<FileConfiguration>,
    upload: &Option<Vec<u8>>,
    finalized: &Option<Vec<u8>>,
) -> (result: Result<DaemonLimits, String>)
    ensures
        match (
            result,
            resolved_limits(
                *file,
                bytes::optional(*upload),
                bytes::optional(*finalized),
            ),
        ) {
            (Ok(limits), Ok(model)) => limits == model,
            (Err(message), Err(model)) => message@ == model,
            _ => false,
        },
{
    if let Err(message) = check_version(file) {
        return Err(message);
    }
    config::apply_limit_environment(limits_of(file), upload, finalized)
}

// ---- the store's place ----

/// Where the store stands: where the environment says, where the file says, or below the data
/// directory.
pub open spec fn resolved_store(
    file: Option<FileConfiguration>,
    override_root: Option<Seq<u8>>,
    xdg_data_home: Option<Seq<u8>>,
    home: Option<Seq<u8>>,
) -> Result<(Seq<u8>, bool), Seq<char>> {
    match (override_root, file_store(file)) {
        (None, Some(root)) => match config::absolute_fault("store_root"@, root) {
            Some(message) => Err(message),
            None => Ok((root, true)),
        },
        _ => config::store_root(override_root, xdg_data_home, home),
    }
}

/// The store root that a file states.
pub open spec fn file_store(file: Option<FileConfiguration>) -> Option<Seq<u8>> {
    match file {
        Some(found) => bytes::optional(found.store_root),
        None => None,
    }
}

fn resolve_store(
    file: &Option<FileConfiguration>,
    override_root: &Option<Vec<u8>>,
    xdg_data_home: &Option<Vec<u8>>,
    home: &Option<Vec<u8>>,
) -> (result: Result<StoreRoot, String>)
    ensures
        match (
            result,
            resolved_store(
                *file,
                bytes::optional(*override_root),
                bytes::optional(*xdg_data_home),
                bytes::optional(*home),
            ),
        ) {
            (Ok(root), Ok(model)) => root@ == model,
            (Err(message), Err(model)) => message@ == model,
            _ => false,
        },
{
    if override_root.is_none() {
        if let Some(found) = file {
            if let Some(root) = &found.store_root {
                return match config::require_absolute_path("store_root", root) {
                    Ok(_) => Ok(
                        StoreRoot { path: text::copy_bytes(root), explicit_override: true },
                    ),
                    Err(message) => Err(message),
                };
            }
        }
    }
    config::resolve_store_root_values(override_root, xdg_data_home, home)
}

// ---- the bound address ----

/// The text of the address to bind: that of the environment, of the file, or the default.
pub open spec fn bind_text(
    file: Option<FileConfiguration>,
    override_bind: Option<Seq<u8>>,
) -> Result<Seq<char>, Seq<char>> {
    match override_bind {
        Some(bytes) => if valid_utf8(bytes) && !text::is_blank(decode_utf8(bytes)) {
            Ok(decode_utf8(bytes))
        } else {
            Err("GLIM_BIND must be a nonblank UTF-8 socket address"@)
        },
        None => match file {
            Some(found) => match found.bind {
                Some(value) => Ok(value@),
                None => Ok(DEFAULT_BIND@),
            },
            None => Ok(DEFAULT_BIND@),
        },
    }
}

/// Chooses the text of the address to bind.
pub fn choose_bind(file: &Option<FileConfiguration>, override_bind: &Option<Vec<u8>>) -> (result:
    Result<String, String>)
    ensures
        match (result, bind_text(*file, bytes::optional(*override_bind))) {
            (Ok(value), Ok(model)) => value@ == model,
            (Err(message), Err(model)) => message@ == model,
            _ => false,
        },
{
    if let Some(bytes) = override_bind {
        return match text::utf8_text(bytes) {
            Some(value) => {
                if text::blank(value) {
                    Err(text::copy_of("GLIM_BIND must be a nonblank UTF-8 socket address"))
                } else {
                    Ok(text::copy_of(value))
                }
            },
            None => Err(text::copy_of("GLIM_BIND must be a nonblank UTF-8 socket address")),
        };
    }
    match file {
        Some(found) => match &found.bind {
            Some(value) => Ok(text::copy_of(value.as_str())),
            None => Ok(text::copy_of(DEFAULT_BIND)),
        },
        None => Ok(text::copy_of(DEFAULT_BIND)),
    }
}

/// The address to bind. `address` is the numeric address that the chosen text is, where it is
/// one.
pub open spec fn resolved_bind(
    file: Option<FileConfiguration>,
    override_bind: Option<Seq<u8>>,
    address: Option<SocketAddress>,
) -> Result<SocketAddress, Seq<char>> {
    match bind_text(file, override_bind) {
        Err(message) => Err(message),
        Ok(_) => match address {
            None => Err(
                "daemon bind must be a numeric IP socket address such as 127.0.0.1:3030"@,
            ),
            Some(bind) => if bind.port == 0 {
                Err("daemon bind port must be greater than zero"@)
            } else {
                Ok(bind)
            },
        },
    }
}

fn resolve_bind(
    file: &Option<FileConfiguration>,
    override_bind: &Option<Vec<u8>>,
    address: Option<SocketAddress>,
) -> (result: Result<SocketAddress, String>)
    ensures
        match (
            result,
            resolved_bind(*file, bytes::optional(*override_bind), address),
        ) {
            (Ok(bind), Ok(model)) => bind == model,
            (Err(message), Err(model)) => message@ == model,
            _ => false,
        },
{
    if let Err(message) = choose_bind(file, override_bind) {
        return Err(message);
    }
    match address {
        None => Err(
            text::copy_of("daemon bind must be a numeric IP socket address such as 127.0.0.1:3030"),
        ),
        Some(bind) => {
            if bind.port == 0 {
                Err(text::copy_of("daemon bind port must be greater than zero"))
            } else {
                Ok(bind)
            }
        },
    }
}

// ---- access ----

/// Access as a file states it. `addresses` are those of the file's proxies, and `parts` are those
/// of the file's origin.
pub open spec fn file_access(
    file: Option<FileConfiguration>,
    addresses: Seq<Option<IpAddress>>,
    parts: Option<PartsModel>,
) -> Result<AccessModel, Seq<char>> {
    match file {
        None => Ok(AccessModel::Local),
        Some(found) => match found.access {
            None => Ok(AccessModel::Local),
            Some(stated) => stated_access(stated, addresses, parts),
        },
    }
}

/// What an access that a file states amounts to.
pub open spec fn stated_access(
    stated: FileAccessConfiguration,
    addresses: Seq<Option<IpAddress>>,
    parts: Option<PartsModel>,
) -> Result<AccessModel, Seq<char>> {
    match stated {
        FileAccessConfiguration::Local => Ok(AccessModel::Local),
        FileAccessConfiguration::Token {
            token_file,
            public_origin,
            tls_certificate,
            tls_private_key,
        } => match config::absolute_fault("access.token_file"@, token_file@) {
            Some(message) => Err(message),
            None => match origin::origin_fault(public_origin@, parts) {
                Some(message) => Err(message),
                None => match access::tls_pair(
                    bytes::optional(tls_certificate),
                    bytes::optional(tls_private_key),
                    "token access requires both tls_certificate and tls_private_key"@,
                ) {
                    Err(message) => Err(message),
                    Ok(tls) => Ok(
                        AccessModel::Token {
                            token_file: token_file@,
                            public_origin: public_origin@,
                            tls,
                        },
                    ),
                },
            },
        },
        FileAccessConfiguration::TrustedProxy { trusted_proxy_ips, public_origin } => {
            match access::trusted_proxies(text::texts(trusted_proxy_ips@), addresses) {
                Err(message) => Err(message),
                Ok(ips) => match origin::origin_fault(public_origin@, parts) {
                    Some(message) => Err(message),
                    None => Ok(AccessModel::TrustedProxy { ips, public_origin: public_origin@ }),
                },
            }
        },
    }
}

/// The origin that a file states.
pub open spec fn file_origin(file: Option<FileConfiguration>) -> Option<Seq<char>> {
    match file {
        Some(found) => match found.access {
            Some(FileAccessConfiguration::Token { public_origin, .. }) => Some(public_origin@),
            Some(FileAccessConfiguration::TrustedProxy { public_origin, .. }) => Some(
                public_origin@,
            ),
            _ => None,
        },
        None => None,
    }
}

fn parts_of_file(file: &Option<FileConfiguration>) -> (parts: Option<OriginParts>)
    ensures
        origin::parts_model(parts) == access::parts_of(file_origin(*file)),
{
    match file {
        Some(found) => match &found.access {
            Some(FileAccessConfiguration::Token { public_origin, .. }) => origin::origin_parts(
                public_origin.as_str(),
            ),
            Some(FileAccessConfiguration::TrustedProxy { public_origin, .. }) =>
                origin::origin_parts(public_origin.as_str()),
            _ => None,
        },
        None => None,
    }
}

fn resolve_access(
    stated: Option<FileAccessConfiguration>,
    addresses: &[Option<IpAddress>],
    parts: &Option<OriginParts>,
) -> (result: Result<AccessConfiguration, String>)
    ensures
        match (
            result,
            match stated {
                None => Ok(AccessModel::Local),
                Some(found) => stated_access(found, addresses@, origin::parts_model(*parts)),
            },
        ) {
            (Ok(access), Ok(model)) => access@ == model,
            (Err(message), Err(model)) => message@ == model,
            _ => false,
        },
{
    match stated {
        None | Some(FileAccessConfiguration::Local) => Ok(AccessConfiguration::Local),
        Some(
            FileAccessConfiguration::Token {
                token_file,
                public_origin,
                tls_certificate,
                tls_private_key,
            },
        ) => {
            if let Err(message) = config::require_absolute_path("access.token_file", &token_file) {
                return Err(message);
            }
            if let Err(message) = origin::check_origin(public_origin.as_str(), parts) {
                return Err(message);
            }
            match access::pair_tls_files(
                tls_certificate,
                tls_private_key,
                "token access requires both tls_certificate and tls_private_key",
            ) {
                Ok(tls) => Ok(
                    AccessConfiguration::Token(
                        TokenAccessConfiguration { token_file, public_origin, tls },
                    ),
                ),
                Err(message) => Err(message),
            }
        },
        Some(FileAccessConfiguration::TrustedProxy { trusted_proxy_ips, public_origin }) => {
            let list = match access::parse_trusted_proxy_ips(&trusted_proxy_ips, addresses) {
                Ok(list) => list,
                Err(message) => {
                    return Err(message);
                },
            };
            match origin::check_origin(public_origin.as_str(), parts) {
                Ok(_) => Ok(
                    AccessConfiguration::TrustedProxy(
                        TrustedProxyAccessConfiguration {
                            trusted_proxy_ips: list,
                            public_origin,
                        },
                    ),
                ),
                Err(message) => Err(message),
            }
        },
    }
}

// ---- the whole ----

/// What the environment says of the store and the bound address.
#[derive(Debug, PartialEq, Eq)]
pub struct PlaceEnvironment {
    /// `GLIM_STORE_ROOT`
    pub store_root: Option<Vec<u8>>,
    /// `GLIM_BIND`
    pub bind: Option<Vec<u8>>,
    /// `XDG_DATA_HOME`
    pub xdg_data_home: Option<Vec<u8>>,
    /// `HOME`
    pub home: Option<Vec<u8>>,
}

/// The configuration of the file and of what the environment says of the store and the bound
/// address. The file's version is looked at first, then the store, the address and the access.
pub open spec fn base_configuration(
    file: Option<FileConfiguration>,
    environment: PlaceEnvironment,
    address: Option<SocketAddress>,
    addresses: Seq<Option<IpAddress>>,
    parts: Option<PartsModel>,
) -> Result<ConfigurationModel, Seq<char>> {
    if has_foreign_version(file) {
        Err("daemon configuration schema_version must be 1"@)
    } else {
        match resolved_store(
            file,
            bytes::optional(environment.store_root),
            bytes::optional(environment.xdg_data_home),
            bytes::optional(environment.home),
        ) {
            Err(message) => Err(message),
            Ok(store) => match resolved_bind(
                file,
                bytes::optional(environment.bind),
                address,
            ) {
                Err(message) => Err(message),
                Ok(bind) => match file_access(file, addresses, parts) {
                    Err(message) => Err(message),
                    Ok(access) => Ok(
                        ConfigurationModel { store, bind, access, limits: file_limits(file) },
                    ),
                },
            },
        }
    }
}

/// Resolves the configuration of the file and of what the environment says of the store and the
/// bound address, given the parts of the file's origin.
pub fn resolve_base_with(
    file: Option<FileConfiguration>,
    environment: &PlaceEnvironment,
    address: Option<SocketAddress>,
    addresses: &[Option<IpAddress>],
    parts: &Option<OriginParts>,
) -> (result: Result<DaemonConfiguration, String>)
    ensures
        match (
            result,
            base_configuration(
                file,
                *environment,
                address,
                addresses@,
                origin::parts_model(*parts),
            ),
        ) {
            (Ok(configuration), Ok(model)) => configuration@ == model,
            (Err(message), Err(model)) => message@ == model,
            _ => false,
        },
{
    if let Err(message) = check_version(&file) {
        return Err(message);
    }
    let store = match resolve_store(
        &file,
        &environment.store_root,
        &environment.xdg_data_home,
        &environment.home,
    ) {
        Ok(store) => store,
        Err(message) => {
            return Err(message);
        },
    };
    let bind = match resolve_bind(&file, &environment.bind, address) {
        Ok(bind) => bind,
        Err(message) => {
            return Err(message);
        },
    };
    let limits = limits_of(&file);
    let stated = match file {
        Some(found) => found.access,
        None => None,
    };
    match resolve_access(stated, addresses, parts) {
        Ok(access) => Ok(DaemonConfiguration { store, bind, access, limits }),
        Err(message) => Err(message),
    }
}

/// Resolves the configuration of the file and of what the environment says of the store and the
/// bound address. `address` is the numeric address that the chosen bind text is, and `addresses`
/// are those of the file's proxies.
pub fn resolve_daemon_configuration_base_values(
    file: Option<FileConfiguration>,
    environment: &PlaceEnvironment,
    address: Option<SocketAddress>,
    addresses: &[Option<IpAddress>],
) -> (result: Result<DaemonConfiguration, String>)
    ensures
        match (
            result,
            base_configuration(
                file,
                *environment,
                address,
                addresses@,
                access::parts_of(file_origin(file)),
            ),
        ) {
            (Ok(configuration), Ok(model)) => configuration@ == model,
            (Err(message), Err(model)) => message@ == model,
            _ => false,
        },
{
    let parts = parts_of_file(&file);
    resolve_base_with(file, environment, address, addresses, &parts)
}

/// A base configuration after its limits and its access on the bound address are checked.
pub open spec fn checked(base: Result<ConfigurationModel, Seq<char>>) -> Result<
    ConfigurationModel,
    Seq<char>,
> {
    match base {
        Err(message) => Err(message),
        Ok(found) => match config::limits_fault(found.limits) {
            Some(message) => Err(message),
            None => match access::access_bind_fault(
                found.bind,
                found.access,
                access::parts_of(access::origin_of(found.access)),
            ) {
                Some(message) => Err(message),
                None => Ok(found),
            },
        },
    }
}

/// Resolves and checks the configuration of the file and of what the environment says of the
/// store and the bound address.
pub fn resolve_daemon_configuration_values(
    file: Option<FileConfiguration>,
    environment: &PlaceEnvironment,
    address: Option<SocketAddress>,
    addresses: &[Option<IpAddress>],
) -> (result: Result<DaemonConfiguration, String>)
    ensures
        match (
            result,
            checked(
                base_configuration(
                    file,
                    *environment,
                    address,
                    addresses@,
                    access::parts_of(file_origin(file)),
                ),
            ),
        ) {
            (Ok(configuration), Ok(model)) => configuration@ == model,
            (Err(message), Err(model)) => message@ == model,
            _ => false,
        },
{
    let configuration = match resolve_daemon_configuration_base_values(
        file,
        environment,
        address,
        addresses,
    ) {
        Ok(configuration) => configuration,
        Err(message) => {
            return Err(message);
        },
    };
    if let Err(message) = config::validate_limits(configuration.limits) {
        return Err(message);
    }
    match access::validate_access_bind(&configuration.bind, &configuration.access) {
        Ok(_) => Ok(configuration),
        Err(message) => Err(message),
    }
}

/// A base configuration after the environment's limits and access, checked: the limits first,
/// then the access, then the access on the bound address.
pub open spec fn configuration_after(
    base: ConfigurationModel,
    upload: Option<Seq<u8>>,
    finalized: Option<Seq<u8>>,
    environment: access::EnvironmentModel,
    addresses: Seq<Option<IpAddress>>,
) -> Result<ConfigurationModel, Seq<char>> {
    match config::limits_after(base.limits, upload, finalized) {
        Err(message) => Err(message),
        Ok(limits) => match access::access_after(
            base.access,
            environment,
            addresses,
            access::parts_of(access::selected_origin(base.access, environment)),
        ) {
            Err(message) => Err(message),
            Ok(changed) => match access::access_bind_fault(
                base.bind,
                changed,
                access::parts_of(access::origin_of(changed)),
            ) {
                Some(message) => Err(message),
                None => Ok(
                    ConfigurationModel {
                        store: base.store,
                        bind: base.bind,
                        access: changed,
                        limits,
                    },
                ),
            },
        },
    }
}

/// Applies the environment's limits and access to a base configuration, and checks what comes
/// out. `addresses` are those of the entries of `GLIM_TRUSTED_PROXY_IPS`.
pub fn apply_environment(
    base: DaemonConfiguration,
    upload: &Option<Vec<u8>>,
    finalized: &Option<Vec<u8>>,
    environment: &AccessEnvironment,
    addresses: &[Option<IpAddress>],
) -> (result: Result<DaemonConfiguration, String>)
    ensures
        match (
            result,
            configuration_after(
                base@,
                bytes::optional(*upload),
                bytes::optional(*finalized),
                environment@,
                addresses@,
            ),
        ) {
            (Ok(configuration), Ok(model)) => configuration@ == model,
            (Err(message), Err(model)) => message@ == model,
            _ => false,
        },
{
    let limits = match config::apply_limit_environment(base.limits, upload, finalized) {
        Ok(limits) => limits,
        Err(message) => {
            return Err(message);
        },
    };
    let DaemonConfiguration { store, bind, access: configured, .. } = base;
    let changed = match access::apply_access_environment_values(
        configured,
        environment,
        addresses,
    ) {
        Ok(changed) => changed,
        Err(message) => {
            return Err(message);
        },
    };
    match access::validate_access_bind(&bind, &changed) {
        Ok(_) => Ok(DaemonConfiguration { store, bind, access: changed, limits }),
        Err(message) => Err(message),
    }
}

/// The environment leaves the store and the bound address as they were, and what it accepts is
/// safe to run: the limits fit each other, and beyond loopback access is authenticated, with TLS
/// files where it is by token.
pub proof fn law_accepted_configurations_are_safe(
    base: ConfigurationModel,
    upload: Option<Seq<u8>>,
    finalized: Option<Seq<u8>>,
    environment: access::EnvironmentModel,
    addresses: Seq<Option<IpAddress>>,
)
    requires
        configuration_after(base, upload, finalized, environment, addresses) is Ok,
    ensures
        ({
            let found = configuration_after(
                base,
                upload,
                finalized,
                environment,
                addresses,
            )->Ok_0;
            &&& found.store == base.store
            &&& found.bind == base.bind
            &&& 0 < found.limits.max_upload_bytes <= found.limits.max_finalized_blob_bytes
            &&& !origin::is_loopback(found.bind.ip) ==> !(found.access is Local)
            &&& !origin::is_loopback(found.bind.ip) ==> (found.access matches AccessModel::Token {
                tls,
                ..
            } ==> tls is Some)
        }),
{
}

/// The environment weighs more than the file, and the file more than the defaults: a store root
/// in the environment is the store's place whatever the file says, and one in the file is the
/// store's place whatever the data directories are.
pub proof fn law_environment_outweighs_file(
    file: Option<FileConfiguration>,
    set_root: Option<Seq<u8>>,
    xdg_data_home: Option<Seq<u8>>,
    home: Option<Seq<u8>>,
)
    requires
        resolved_store(file, set_root, xdg_data_home, home) is Ok,
    ensures
        ({
            let found = resolved_store(file, set_root, xdg_data_home, home)->Ok_0;
            &&& set_root matches Some(root) ==> found == (root, true)
            &&& set_root is None ==> (file_store(file) matches Some(root) ==> found == (root, true))
        }),
{
}

// ---- reading the file ----

/// What came of reading the configuration file.
#[derive(Debug, PartialEq, Eq)]
pub enum ConfigurationRead {
    /// The file's bytes, up to one more than are accepted.
    Bytes(Vec<u8>),
    /// There is no such file.
    Missing,
    /// The path names something that is no regular file.
    Irregular,
    /// Reading failed, for the reason given.
    Failed(String),
}

/// The bytes of the configuration file, where there are any. A file that need not be there may be
/// missing; a file that is too long is refused.
pub open spec fn configuration_bytes(
    shown_path: Seq<char>,
    required: bool,
    read: ConfigurationRead,
) -> Result<Option<Seq<u8>>, Seq<char>> {
    match read {
        ConfigurationRead::Bytes(bytes) => if bytes@.len() > config::MAX_CONFIG_BYTES {
            Err(
                "could not read daemon configuration "@ + shown_path
                    + ": daemon configuration exceeds 64 KiB"@,
            )
        } else {
            Ok(Some(bytes@))
        },
        ConfigurationRead::Missing => if required {
            Err("explicit configuration file does not exist: "@ + shown_path)
        } else {
            Ok(None)
        },
        ConfigurationRead::Irregular => Err(
            "could not read daemon configuration "@ + shown_path
                + ": configuration path is not a regular file"@,
        ),
        ConfigurationRead::Failed(reason) => Err(
            "could not read daemon configuration "@ + shown_path + ": "@ + reason@,
        ),
    }
}

/// Judges what came of reading the configuration file at a path, given as it is shown.
pub fn accept_configuration_file(
    shown_path: &str,
    required: bool,
    read: ConfigurationRead,
) -> (result: Result<Option<Vec<u8>>, String>)
    ensures
        match (result, configuration_bytes(shown_path@, required, read)) {
            (Ok(bytes), Ok(model)) => bytes::optional(bytes) == model,
            (Err(message), Err(model)) => message@ == model,
            _ => false,
        },
{
    let start = text::joined("could not read daemon configuration ", shown_path);
    match read {
        ConfigurationRead::Bytes(bytes) => {
            if bytes.len() as u64 > config::MAX_CONFIG_BYTES {
                Err(text::joined(start.as_str(), ": daemon configuration exceeds 64 KiB"))
            } else {
                Ok(Some(bytes))
            }
        },
        ConfigurationRead::Missing => {
            if required {
                Err(text::joined("explicit configuration file does not exist: ", shown_path))
            } else {
                Ok(None)
            }
        },
        ConfigurationRead::Irregular => Err(
            text::joined(start.as_str(), ": configuration path is not a regular file"),
        ),
        ConfigurationRead::Failed(reason) => Err(
            text::joined3(start.as_str(), ": ", reason.as_str()),
        ),
    }
}

} // verus!

//! Who may use the daemon: what the environment makes of the configured access, and which
//! addresses that access may be offered on.
use vstd::prelude::*;
use crate::bytes;
use crate::daemon::config;
use crate::daemon::config::{
    AccessConfiguration,
    AccessModel,
    TlsFiles,
    TokenAccessConfiguration,
    TrustedProxyAccessConfiguration,
};
use crate::daemon::origin;
use crate::daemon::origin::{IpAddress, OriginParts, PartsModel, SocketAddress};
use crate::text;

verus! {

// ---- trusted proxies ----

/// The address of the entry at `i`; none where the entry is no address.
pub open spec fn address_at(addresses: Seq<Option<IpAddress>>, i: int) -> Option<IpAddress> {
    if 0 <= i < addresses.len() {
        addresses[i]
    } else {
        None
    }
}

/// The distinct addresses of the first `count` entries, or what is wrong with the first entry
/// that is blank or no address.
pub open spec fn proxies_of(
    entries: Seq<Seq<char>>,
    addresses: Seq<Option<IpAddress>>,
    count: int,
) -> Result<Seq<IpAddress>, Seq<char>>
    decreases count,
{
    if count <= 0 {
        Ok(Seq::empty())
    } else {
        match proxies_of(entries, addresses, count - 1) {
            Err(message) => Err(message),
            Ok(list) => if entries[count - 1].len() == 0 {
                Err("trusted proxy IPs must not contain blank entries"@)
            } else {
                match address_at(addresses, count - 1) {
                    None => Err(
                        "trusted proxy IPs must be exact numeric IPv4 or IPv6 addresses"@,
                    ),
                    Some(address) => if list.contains(address) {
                        Ok(list)
                    } else {
                        Ok(list.push(address))
                    },
                }
            },
        }
    }
}

/// The distinct addresses of all entries, of which there must be one at least.
pub open spec fn trusted_proxies(
    entries: Seq<Seq<char>>,
    addresses: Seq<Option<IpAddress>>,
) -> Result<Seq<IpAddress>, Seq<char>> {
    match proxies_of(entries, addresses, entries.len() as int) {
        Err(message) => Err(message),
        Ok(list) => if list.len() == 0 {
            Err("trusted proxy access requires at least one proxy IP"@)
        } else {
            Ok(list)
        },
    }
}

proof fn lemma_proxies_end(
    entries: Seq<Seq<char>>,
    addresses: Seq<Option<IpAddress>>,
    count: int,
    last: int,
)
    requires
        count <= last,
        proxies_of(entries, addresses, count) is Err,
    ensures
        proxies_of(entries, addresses, last) == proxies_of(entries, addresses, count),
    decreases last - count,
{
    if count < last {
        lemma_proxies_end(entries, addresses, count, last - 1);
    }
}

fn holds_address(list: &[IpAddress], wanted: IpAddress) -> (yes: bool)
    ensures
        yes == list@.contains(wanted),
{
    let mut i: usize = 0;
    while i < list.len()
        invariant
            i <= list.len(),
            forall|j: int| 0 <= j < i ==> list@[j] != wanted,
        decreases list.len() - i,
    {
        if list[i] == wanted {
            return true;
        }
        i += 1;
    }
    false
}

/// The distinct addresses of the proxies. The address of each entry stands at the entry's place
/// in `addresses`; where there is none, the entry is no numeric address.
pub fn parse_trusted_proxy_ips(entries: &[String], addresses: &[Option<IpAddress>]) -> (result:
    Result<Vec<IpAddress>, String>)
    ensures
        match (result, trusted_proxies(text::texts(entries@), addresses@)) {
            (Ok(list), Ok(model)) => list@ == model,
            (Err(message), Err(model)) => message@ == model,
            _ => false,
        },
{
    let mut list: Vec<IpAddress> = Vec::new();
    let mut i: usize = 0;
    while i < entries.len()
        invariant
            i <= entries.len(),
            proxies_of(text::texts(entries@), addresses@, i as int) == Ok::<_, Seq<char>>(list@),
        decreases entries.len() - i,
    {
        let ghost texts = text::texts(entries@);
        assert(texts[i as int] == entries@[i as int]@);
        if text::empty(entries[i].as_str()) {
            proof {
                lemma_proxies_end(texts, addresses@, i + 1, texts.len() as int);
            }
            return Err(text::copy_of("trusted proxy IPs must not contain blank entries"));
        }
        let found = if i < addresses.len() {
            addresses[i]
        } else {
            None
        };
        match found {
            Some(address) => {
                if !holds_address(&list, address) {
                    list.push(address);
                }
            },
            None => {
                proof {
                    lemma_proxies_end(texts, addresses@, i + 1, texts.len() as int);
                }
                return Err(
                    text::copy_of("trusted proxy IPs must be exact numeric IPv4 or IPv6 addresses"),
                );
            },
        }
        i += 1;
    }
    if list.len() == 0 {
        return Err(text::copy_of("trusted proxy access requires at least one proxy IP"));
    }
    Ok(list)
}

proof fn lemma_proxies_distinct(
    entries: Seq<Seq<char>>,
    addresses: Seq<Option<IpAddress>>,
    count: int,
)
    ensures
        proxies_of(entries, addresses, count) matches Ok(list) ==> list.no_duplicates(),
    decreases count,
{
    if count > 0 {
        lemma_proxies_distinct(entries, addresses, count - 1);
    }
}

/// Accepted proxies are at least one, and no proxy is listed twice.
pub proof fn law_trusted_proxies_are_distinct(
    entries: Seq<Seq<char>>,
    addresses: Seq<Option<IpAddress>>,
)
    requires
        trusted_proxies(entries, addresses) is Ok,
    ensures
        trusted_proxies(entries, addresses)->Ok_0.len() > 0,
        trusted_proxies(entries, addresses)->Ok_0.no_duplicates(),
{
    lemma_proxies_distinct(entries, addresses, entries.len() as int);
}

// ---- the environment ----

/// What the environment says of access. A value that is not set is none.
#[derive(Debug, PartialEq, Eq)]
pub struct AccessEnvironment {
    /// `GLIM_ACCESS_MODE`
    pub mode: Option<Vec<u8>>,
    /// `GLIM_TOKEN_FILE`
    pub token_file: Option<Vec<u8>>,
    /// `GLIM_PUBLIC_ORIGIN`
    pub public_origin: Option<Vec<u8>>,
    /// `GLIM_TLS_CERTIFICATE`
    pub tls_certificate: Option<Vec<u8>>,
    /// `GLIM_TLS_PRIVATE_KEY`
    pub tls_private_key: Option<Vec<u8>>,
    /// `GLIM_TRUSTED_PROXY_IPS`
    pub trusted_proxy_ips: Option<Vec<u8>>,
}

/// The model of what the environment says of access.
pub struct EnvironmentModel {
    pub mode: Option<Seq<u8>>,
    pub token_file: Option<Seq<u8>>,
    pub public_origin: Option<Seq<u8>>,
    pub tls_certificate: Option<Seq<u8>>,
    pub tls_private_key: Option<Seq<u8>>,
    pub trusted_proxy_ips: Option<Seq<u8>>,
}

impl View for AccessEnvironment {
    type V = EnvironmentModel;

    open spec fn view(&self) -> EnvironmentModel {
        EnvironmentModel {
            mode: bytes::optional(self.mode),
            token_file: bytes::optional(self.token_file),
            public_origin: bytes::optional(self.public_origin),
            tls_certificate: bytes::optional(self.tls_certificate),
            tls_private_key: bytes::optional(self.tls_private_key),
            trusted_proxy_ips: bytes::optional(self.trusted_proxy_ips),
        }
    }
}

/// The entries of a list of proxies: what stands between its commas, trimmed.
pub open spec fn proxy_entries(value: Seq<char>) -> Seq<Seq<char>> {
    text::split(value, ',').map_values(|piece: Seq<char>| text::trimmed(piece))
}

/// The entries of a list of proxies.
pub fn split_proxy_list(value: &str) -> (entries: Vec<String>)
    ensures
        text::texts(entries@) == proxy_entries(value@),
{
    let chars = text::chars_of(value);
    let pieces = text::split_chars(&chars, ',');
    let mut entries: Vec<String> = Vec::new();
    let mut i: usize = 0;
    while i < pieces.len()
        invariant
            i <= pieces.len(),
            text::views(pieces@) == text::split(value@, ','),
            text::texts(entries@) == proxy_entries(value@).take(i as int),
        decreases pieces.len() - i,
    {
        let middle = text::trim_chars(&pieces[i]);
        assert(text::views(pieces@)[i as int] == pieces@[i as int]@);
        let entry = text::string_of(&middle);
        let ghost before = entries@;
        entries.push(entry);
        assert(text::texts(entries@) =~= text::texts(before).push(entry@));
        assert(proxy_entries(value@).take(i + 1) =~= proxy_entries(value@).take(i as int).push(
            entry@,
        ));
        i += 1;
    }
    assert(proxy_entries(value@).take(pieces@.len() as int) =~= proxy_entries(value@)) by {
        assert(text::views(pieces@).len() == pieces@.len());
    }
    entries
}

/// The entries of `GLIM_TRUSTED_PROXY_IPS`, whose addresses the access depends on; none where the
/// variable holds no nonblank text.
pub fn environment_proxy_entries(value: &Option<Vec<u8>>) -> (entries: Vec<String>)
    ensures
        text::texts(entries@) == match config::environment_text(
            "GLIM_TRUSTED_PROXY_IPS"@,
            bytes::optional(*value),
        ) {
            Ok(Some(content)) => proxy_entries(content),
            _ => Seq::<Seq<char>>::empty(),
        },
{
    match config::environment_string("GLIM_TRUSTED_PROXY_IPS", value) {
        Ok(Some(content)) => split_proxy_list(content.as_str()),
        _ => {
            let entries: Vec<String> = Vec::new();
            assert(text::texts(entries@) =~= Seq::<Seq<char>>::empty());
            entries
        },
    }
}

/// The ways in which the daemon can be used.
#[derive(Debug, Clone, Copy, PartialEq, Eq, Structural)]
pub enum AccessMode {
    Local,
    Token,
    TrustedProxy,
}

/// The mode of a configuration.
pub open spec fn mode_of(access: AccessModel) -> AccessMode {
    match access {
        AccessModel::Local => AccessMode::Local,
        AccessModel::Token { .. } => AccessMode::Token,
        AccessModel::TrustedProxy { .. } => AccessMode::TrustedProxy,
    }
}

/// The mode that `GLIM_ACCESS_MODE` names.
pub open spec fn environment_mode(value: Option<Seq<u8>>) -> Result<Option<AccessMode>, Seq<char>> {
    match config::environment_text("GLIM_ACCESS_MODE"@, value) {
        Err(message) => Err(message),
        Ok(None) => Ok(None),
        Ok(Some(name)) => if name == "local"@ {
            Ok(Some(AccessMode::Local))
        } else if name == "token"@ {
            Ok(Some(AccessMode::Token))
        } else if name == "trusted_proxy"@ {
            Ok(Some(AccessMode::TrustedProxy))
        } else {
            Err("GLIM_ACCESS_MODE must be local, token, or trusted_proxy"@)
        },
    }
}

fn read_mode(value: &Option<Vec<u8>>) -> (result: Result<Option<AccessMode>, String>)
    ensures
        match (result, environment_mode(bytes::optional(*value))) {
            (Ok(mode), Ok(model)) => mode == model,
            (Err(message), Err(model)) => message@ == model,
            _ => false,
        },
{
    match config::environment_string("GLIM_ACCESS_MODE", value) {
        Err(message) => Err(message),
        Ok(None) => Ok(None),
        Ok(Some(name)) => {
            if text::same_text(name.as_str(), "local") {
                Ok(Some(AccessMode::Local))
            } else if text::same_text(name.as_str(), "token") {
                Ok(Some(AccessMode::Token))
            } else if text::same_text(name.as_str(), "trusted_proxy") {
                Ok(Some(AccessMode::TrustedProxy))
            } else {
                Err(text::copy_of("GLIM_ACCESS_MODE must be local, token, or trusted_proxy"))
            }
        },
    }
}

/// Whether the environment sets anything about access besides the mode.
pub open spec fn overrides_access(environment: EnvironmentModel) -> bool {
    environment.token_file is Some || environment.public_origin is Some
        || environment.tls_certificate is Some || environment.tls_private_key is Some
        || environment.trusted_proxy_ips is Some
}

/// What a token configuration holds before the environment: its file, its origin, its
/// certificate and its key.
pub struct TokenParts {
    pub token_file: Option<Seq<u8>>,
    pub public_origin: Option<Seq<char>>,
    pub certificate: Option<Seq<u8>>,
    pub private_key: Option<Seq<u8>>,
}

/// The parts of a token configuration; nothing of another.
pub open spec fn token_parts(access: AccessModel) -> TokenParts {
    match access {
        AccessModel::Token { token_file, public_origin, tls } => TokenParts {
            token_file: Some(token_file),
            public_origin: Some(public_origin),
            certificate: match tls {
                Some(pair) => Some(pair.0),
                None => None,
            },
            private_key: match tls {
                Some(pair) => Some(pair.1),
                None => None,
            },
        },
        _ => TokenParts {
            token_file: None,
            public_origin: None,
            certificate: None,
            private_key: None,
        },
    }
}

/// The first of two optional values that is there.
pub open spec fn first_of<T>(first: Option<T>, second: Option<T>) -> Option<T> {
    match first {
        Some(_) => first,
        None => second,
    }
}

/// The TLS files: both or none, at absolute paths. `missing` tells that one is not there.
pub open spec fn tls_pair(
    certificate: Option<Seq<u8>>,
    private_key: Option<Seq<u8>>,
    missing: Seq<char>,
) -> Result<Option<(Seq<u8>, Seq<u8>)>, Seq<char>> {
    match (certificate, private_key) {
        (None, None) => Ok(None),
        (Some(first), Some(second)) => match (
            config::absolute_fault("access.tls_certificate"@, first),
            config::absolute_fault("access.tls_private_key"@, second),
        ) {
            (Some(message), _) => Err(message),
            (None, Some(message)) => Err(message),
            (None, None) => Ok(Some((first, second))),
        },
        _ => Err(missing),
    }
}

/// The TLS files of two optional paths.
pub fn pair_tls_files(
    certificate: Option<Vec<u8>>,
    private_key: Option<Vec<u8>>,
    missing: &str,
) -> (result: Result<Option<TlsFiles>, String>)
    ensures
        match (
            result,
            tls_pair(
                bytes::optional(certificate),
                bytes::optional(private_key),
                missing@,
            ),
        ) {
            (Ok(files), Ok(model)) => config::tls_model(files) == model,
            (Err(message), Err(model)) => message@ == model,
            _ => false,
        },
{
    match (certificate, private_key) {
        (None, None) => Ok(None),
        (Some(certificate), Some(private_key)) => {
            if let Err(message) = config::require_absolute_path(
                "access.tls_certificate",
                &certificate,
            ) {
                return Err(message);
            }
            if let Err(message) = config::require_absolute_path(
                "access.tls_private_key",
                &private_key,
            ) {
                return Err(message);
            }
            Ok(Some(TlsFiles { certificate, private_key }))
        },
        _ => Err(text::copy_of(missing)),
    }
}

/// Token access after the environment. The settings are read in the order file, origin,
/// certificate, key, and the first fault is told. `parts` are those of the chosen origin.
pub open spec fn token_after(
    before: TokenParts,
    environment: EnvironmentModel,
    parts: Option<PartsModel>,
) -> Result<AccessModel, Seq<char>> {
    match config::environment_location("GLIM_TOKEN_FILE"@, environment.token_file) {
        Err(message) => Err(message),
        Ok(set_file) => match first_of(set_file, before.token_file) {
            None => Err("token access requires GLIM_TOKEN_FILE or access.token_file"@),
            Some(token_file) => match config::absolute_fault("access.token_file"@, token_file) {
                Some(message) => Err(message),
                None => match config::environment_text(
                    "GLIM_PUBLIC_ORIGIN"@,
                    environment.public_origin,
                ) {
                    Err(message) => Err(message),
                    Ok(set_origin) => match first_of(set_origin, before.public_origin) {
                        None => Err(
                            "token access requires GLIM_PUBLIC_ORIGIN or access.public_origin"@,
                        ),
                        Some(public_origin) => match origin::origin_fault(public_origin, parts) {
                            Some(message) => Err(message),
                            None => match tls_after(before, environment) {
                                Err(message) => Err(message),
                                Ok(tls) => Ok(AccessModel::Token { token_file, public_origin, tls }),
                            },
                        },
                    },
                },
            },
        },
    }
}

/// The TLS files after the environment.
pub open spec fn tls_after(before: TokenParts, environment: EnvironmentModel) -> Result<
    Option<(Seq<u8>, Seq<u8>)>,
    Seq<char>,
> {
    match (
        config::environment_location("GLIM_TLS_CERTIFICATE"@, environment.tls_certificate),
        config::environment_location("GLIM_TLS_PRIVATE_KEY"@, environment.tls_private_key),
    ) {
        (Err(message), _) => Err(message),
        (Ok(_), Err(message)) => Err(message),
        (Ok(certificate), Ok(private_key)) => tls_pair(
            first_of(certificate, before.certificate),
            first_of(private_key, before.private_key),
            "token access requires both TLS path overrides"@,
        ),
    }
}

/// The proxies of a trusted-proxy configuration; nothing of another.
pub open spec fn proxies_before(access: AccessModel) -> Option<Seq<IpAddress>> {
    match access {
        AccessModel::TrustedProxy { ips, .. } => Some(ips),
        _ => None,
    }
}

/// The origin of a trusted-proxy configuration; nothing of another.
pub open spec fn proxy_origin_before(access: AccessModel) -> Option<Seq<char>> {
    match access {
        AccessModel::TrustedProxy { public_origin, .. } => Some(public_origin),
        _ => None,
    }
}

/// Trusted-proxy access after the environment: the proxies are read before the origin.
pub open spec fn proxy_after(
    current: AccessModel,
    environment: EnvironmentModel,
    addresses: Seq<Option<IpAddress>>,
    parts: Option<PartsModel>,
) -> Result<AccessModel, Seq<char>> {
    match proxies_after(current, environment.trusted_proxy_ips, addresses) {
        Err(message) => Err(message),
        Ok(ips) => match config::environment_text(
            "GLIM_PUBLIC_ORIGIN"@,
            environment.public_origin,
        ) {
            Err(message) => Err(message),
            Ok(set_origin) => match first_of(set_origin, proxy_origin_before(current)) {
                None => Err(
                    "trusted-proxy access requires GLIM_PUBLIC_ORIGIN or access.public_origin"@,
                ),
                Some(public_origin) => match origin::origin_fault(public_origin, parts) {
                    Some(message) => Err(message),
                    None => Ok(AccessModel::TrustedProxy { ips, public_origin }),
                },
            },
        },
    }
}

/// The proxies after the environment.
pub open spec fn proxies_after(
    current: AccessModel,
    value: Option<Seq<u8>>,
    addresses: Seq<Option<IpAddress>>,
) -> Result<Seq<IpAddress>, Seq<char>> {
    match config::environment_text("GLIM_TRUSTED_PROXY_IPS"@, value) {
        Err(message) => Err(message),
        Ok(Some(content)) => trusted_proxies(proxy_entries(content), addresses),
        Ok(None) => match proxies_before(current) {
            Some(ips) => Ok(ips),
            None => Err(
                "trusted-proxy access requires GLIM_TRUSTED_PROXY_IPS or access.trusted_proxy_ips"@,
            ),
        },
    }
}

/// The mode after the environment: the one it names, or the configured one.
pub open spec fn mode_after(current: AccessModel, named: Option<AccessMode>) -> AccessMode {
    match named {
        Some(mode) => mode,
        None => mode_of(current),
    }
}

/// Access after the environment. `addresses` are those of the entries of
/// `GLIM_TRUSTED_PROXY_IPS`, and `parts` are those of the chosen origin.
pub open spec fn access_after(
    current: AccessModel,
    environment: EnvironmentModel,
    addresses: Seq<Option<IpAddress>>,
    parts: Option<PartsModel>,
) -> Result<AccessModel, Seq<char>> {
    match environment_mode(environment.mode) {
        Err(message) => Err(message),
        Ok(named) => if named is None && !overrides_access(environment) {
            Ok(current)
        } else {
            match mode_after(current, named) {
                AccessMode::Local => if overrides_access(environment) {
                    Err("local access mode does not accept access overrides"@)
                } else {
                    Ok(AccessModel::Local)
                },
                AccessMode::Token => if environment.trusted_proxy_ips is Some {
                    Err("token access does not accept GLIM_TRUSTED_PROXY_IPS"@)
                } else {
                    token_after(token_parts(current), environment, parts)
                },
                AccessMode::TrustedProxy => if environment.token_file is Some
                    || environment.tls_certificate is Some || environment.tls_private_key is Some {
                    Err("trusted-proxy access does not accept token or TLS settings"@)
                } else {
                    proxy_after(current, environment, addresses, parts)
                },
            }
        },
    }
}

/// The origin that the access after the environment goes by, where there is one: the one that
/// the environment sets, or the configured one where the mode stays.
pub open spec fn selected_origin(
    current: AccessModel,
    environment: EnvironmentModel,
) -> Option<Seq<char>> {
    match (
        environment_mode(environment.mode),
        config::environment_text("GLIM_PUBLIC_ORIGIN"@, environment.public_origin),
    ) {
        (Ok(named), Ok(set_origin)) => match mode_after(current, named) {
            AccessMode::Local => None,
            AccessMode::Token => first_of(set_origin, token_parts(current).public_origin),
            AccessMode::TrustedProxy => first_of(set_origin, proxy_origin_before(current)),
        },
        _ => None,
    }
}

/// The parts of an optional origin.
pub open spec fn parts_of(value: Option<Seq<char>>) -> Option<PartsModel> {
    match value {
        Some(content) => origin::uri_parts(content),
        None => None,
    }
}

fn sets_access(environment: &AccessEnvironment) -> (yes: bool)
    ensures
        yes == overrides_access(environment@),
{
    environment.token_file.is_some() || environment.public_origin.is_some()
        || environment.tls_certificate.is_some() || environment.tls_private_key.is_some()
        || environment.trusted_proxy_ips.is_some()
}

fn current_mode(current: &AccessConfiguration) -> (mode: AccessMode)
    ensures
        mode == mode_of(current@),
{
    match current {
        AccessConfiguration::Local => AccessMode::Local,
        AccessConfiguration::Token(_) => AccessMode::Token,
        AccessConfiguration::TrustedProxy(_) => AccessMode::TrustedProxy,
    }
}

fn copy_tls(configuration: &TokenAccessConfiguration) -> (paths: (Option<Vec<u8>>, Option<Vec<u8>>))
    ensures
        config::tls_model(configuration.tls) matches Some(pair) ==> bytes::optional(paths.0)
            == Some(pair.0) && bytes::optional(paths.1) == Some(pair.1),
        configuration.tls is None ==> paths.0 is None && paths.1 is None,
{
    match &configuration.tls {
        Some(files) => (
            Some(text::copy_bytes(&files.certificate)),
            Some(text::copy_bytes(&files.private_key)),
        ),
        None => (None, None),
    }
}

fn apply_token_environment(
    current: AccessConfiguration,
    environment: &AccessEnvironment,
    parts: &Option<OriginParts>,
) -> (result: Result<AccessConfiguration, String>)
    ensures
        match (
            result,
            token_after(token_parts(current@), environment@, origin::parts_model(*parts)),
        ) {
            (Ok(access), Ok(model)) => access@ == model,
            (Err(message), Err(model)) => message@ == model,
            _ => false,
        },
{
    let existing: Option<TokenAccessConfiguration> = match current {
        AccessConfiguration::Token(configuration) => Some(configuration),
        _ => None,
    };
    let set_file = match config::environment_path("GLIM_TOKEN_FILE", &environment.token_file) {
        Ok(found) => found,
        Err(message) => {
            return Err(message);
        },
    };
    let token_file = match (set_file, &existing) {
        (Some(location), _) => location,
        (None, Some(configuration)) => text::copy_bytes(&configuration.token_file),
        (None, None) => {
            return Err(
                text::copy_of("token access requires GLIM_TOKEN_FILE or access.token_file"),
            );
        },
    };
    if let Err(message) = config::require_absolute_path("access.token_file", &token_file) {
        return Err(message);
    }
    let set_origin = match config::environment_string(
        "GLIM_PUBLIC_ORIGIN",
        &environment.public_origin,
    ) {
        Ok(found) => found,
        Err(message) => {
            return Err(message);
        },
    };
    let public_origin = match (set_origin, &existing) {
        (Some(value), _) => value,
        (None, Some(configuration)) => text::copy_of(configuration.public_origin.as_str()),
        (None, None) => {
            return Err(
                text::copy_of("token access requires GLIM_PUBLIC_ORIGIN or access.public_origin"),
            );
        },
    };
    if let Err(message) = origin::check_origin(public_origin.as_str(), parts) {
        return Err(message);
    }
    let set_certificate = match config::environment_path(
        "GLIM_TLS_CERTIFICATE",
        &environment.tls_certificate,
    ) {
        Ok(found) => found,
        Err(message) => {
            return Err(message);
        },
    };
    let set_key = match config::environment_path(
        "GLIM_TLS_PRIVATE_KEY",
        &environment.tls_private_key,
    ) {
        Ok(found) => found,
        Err(message) => {
            return Err(message);
        },
    };
    let (old_certificate, old_key) = match &existing {
        Some(configuration) => copy_tls(configuration),
        None => (None, None),
    };
    let certificate = match set_certificate {
        Some(location) => Some(location),
        None => old_certificate,
    };
    let private_key = match set_key {
        Some(location) => Some(location),
        None => old_key,
    };
    match pair_tls_files(
        certificate,
        private_key,
        "token access requires both TLS path overrides",
    ) {
        Ok(tls) => Ok(
            AccessConfiguration::Token(TokenAccessConfiguration { token_file, public_origin, tls }),
        ),
        Err(message) => Err(message),
    }
}

fn apply_proxy_environment(
    current: AccessConfiguration,
    environment: &AccessEnvironment,
    addresses: &[Option<IpAddress>],
    parts: &Option<OriginParts>,
) -> (result: Result<AccessConfiguration, String>)
    ensures
        match (
            result,
            proxy_after(current@, environment@, addresses@, origin::parts_model(*parts)),
        ) {
            (Ok(access), Ok(model)) => access@ == model,
            (Err(message), Err(model)) => message@ == model,
            _ => false,
        },
{
    let existing: Option<TrustedProxyAccessConfiguration> = match current {
        AccessConfiguration::TrustedProxy(configuration) => Some(configuration),
        _ => None,
    };
    let set_list = match config::environment_string(
        "GLIM_TRUSTED_PROXY_IPS",
        &environment.trusted_proxy_ips,
    ) {
        Ok(found) => found,
        Err(message) => {
            return Err(message);
        },
    };
    let (old_list, old_origin) = match existing {
        Some(configuration) => (
            Some(configuration.trusted_proxy_ips),
            Some(configuration.public_origin),
        ),
        None => (None, None),
    };
    let trusted_proxy_ips = match (set_list, old_list) {
        (Some(content), _) => {
            let entries = split_proxy_list(content.as_str());
            match parse_trusted_proxy_ips(&entries, addresses) {
                Ok(list) => list,
                Err(message) => {
                    return Err(message);
                },
            }
        },
        (None, Some(list)) => list,
        (None, None) => {
            return Err(
                text::copy_of(
                    "trusted-proxy access requires GLIM_TRUSTED_PROXY_IPS or access.trusted_proxy_ips",
                ),
            );
        },
    };
    let set_origin = match config::environment_string(
        "GLIM_PUBLIC_ORIGIN",
        &environment.public_origin,
    ) {
        Ok(found) => found,
        Err(message) => {
            return Err(message);
        },
    };
    let public_origin = match (set_origin, old_origin) {
        (Some(value), _) => value,
        (None, Some(value)) => value,
        (None, None) => {
            return Err(
                text::copy_of(
                    "trusted-proxy access requires GLIM_PUBLIC_ORIGIN or access.public_origin",
                ),
            );
        },
    };
    match origin::check_origin(public_origin.as_str(), parts) {
        Ok(_) => Ok(
            AccessConfiguration::TrustedProxy(
                TrustedProxyAccessConfiguration { trusted_proxy_ips, public_origin },
            ),
        ),
        Err(message) => Err(message),
    }
}

/// Applies the environment to the configured access, given the addresses of the entries of
/// `GLIM_TRUSTED_PROXY_IPS` and the parts of the chosen origin.
pub fn apply_access_with(
    current: AccessConfiguration,
    environment: &AccessEnvironment,
    addresses: &[Option<IpAddress>],
    parts: &Option<OriginParts>,
) -> (result: Result<AccessConfiguration, String>)
    ensures
        match (
            result,
            access_after(current@, environment@, addresses@, origin::parts_model(*parts)),
        ) {
            (Ok(access), Ok(model)) => access@ == model,
            (Err(message), Err(model)) => message@ == model,
            _ => false,
        },
{
    let named = match read_mode(&environment.mode) {
        Ok(named) => named,
        Err(message) => {
            return Err(message);
        },
    };
    let any_override = sets_access(environment);
    if named.is_none() && !any_override {
        return Ok(current);
    }
    let selected = match named {
        Some(mode) => mode,
        None => current_mode(&current),
    };
    match selected {
        AccessMode::Local => {
            if any_override {
                Err(text::copy_of("local access mode does not accept access overrides"))
            } else {
                Ok(AccessConfiguration::Local)
            }
        },
        AccessMode::Token => {
            if environment.trusted_proxy_ips.is_some() {
                Err(text::copy_of("token access does not accept GLIM_TRUSTED_PROXY_IPS"))
            } else {
                apply_token_environment(current, environment, parts)
            }
        },
        AccessMode::TrustedProxy => {
            if environment.token_file.is_some() || environment.tls_certificate.is_some()
                || environment.tls_private_key.is_some() {
                Err(text::copy_of("trusted-proxy access does not accept token or TLS settings"))
            } else {
                apply_proxy_environment(current, environment, addresses, parts)
            }
        },
    }
}

/// The origin that the access after the environment goes by.
pub fn select_origin(current: &AccessConfiguration, environment: &AccessEnvironment) -> (chosen:
    Option<String>)
    ensures
        text::optional(chosen) == selected_origin(current@, environment@),
{
    let named = match read_mode(&environment.mode) {
        Ok(named) => named,
        Err(_) => {
            return None;
        },
    };
    let set_origin = match config::environment_string(
        "GLIM_PUBLIC_ORIGIN",
        &environment.public_origin,
    ) {
        Ok(found) => found,
        Err(_) => {
            return None;
        },
    };
    let selected = match named {
        Some(mode) => mode,
        None => current_mode(current),
    };
    if selected == AccessMode::Local {
        return None;
    }
    match set_origin {
        Some(value) => Some(value),
        None => match current {
            AccessConfiguration::Token(configuration) => if selected == AccessMode::Token {
                Some(text::copy_of(configuration.public_origin.as_str()))
            } else {
                None
            },
            AccessConfiguration::TrustedProxy(configuration) => if selected
                == AccessMode::TrustedProxy {
                Some(text::copy_of(configuration.public_origin.as_str()))
            } else {
                None
            },
            AccessConfiguration::Local => None,
        },
    }
}

/// The parts of an optional origin.
pub fn read_origin(value: &Option<String>) -> (parts: Option<OriginParts>)
    ensures
        origin::parts_model(parts) == parts_of(text::optional(*value)),
{
    match value {
        Some(content) => origin::origin_parts(content.as_str()),
        None => None,
    }
}

/// Applies the environment to the configured access, given the addresses of the entries of
/// `GLIM_TRUSTED_PROXY_IPS`.
pub fn apply_access_environment_values(
    current: AccessConfiguration,
    environment: &AccessEnvironment,
    addresses: &[Option<IpAddress>],
) -> (result: Result<AccessConfiguration, String>)
    ensures
        match (
            result,
            access_after(
                current@,
                environment@,
                addresses@,
                parts_of(selected_origin(current@, environment@)),
            ),
        ) {
            (Ok(access), Ok(model)) => access@ == model,
            (Err(message), Err(model)) => message@ == model,
            _ => false,
        },
{
    let parts = read_origin(&select_origin(&current, environment));
    apply_access_with(current, environment, addresses, &parts)
}

// ---- access and the bound address ----

/// What forbids an access on an address. Beyond loopback, local access is forbidden, token access
/// needs TLS files, and every access needs an HTTPS origin; the origin of token access names the
/// bound port.
pub open spec fn access_bind_fault(
    bind: SocketAddress,
    access: AccessModel,
    parts: Option<PartsModel>,
) -> Option<Seq<char>> {
    let open_to_network = !origin::is_loopback(bind.ip);
    match access {
        AccessModel::Local => if open_to_network {
            Some("non-loopback bind requires authenticated access"@)
        } else {
            None
        },
        AccessModel::Token { tls, .. } => if open_to_network && tls is None {
            Some("non-loopback token access requires configured TLS"@)
        } else {
            match parts {
                None => Some("token public origin is invalid"@),
                Some(found) => if open_to_network && origin::scheme_of(found) != "https"@ {
                    Some("non-loopback token access requires an HTTPS public origin"@)
                } else if origin::origin_port(found) != bind.port {
                    Some("token public origin port must match the bind port"@)
                } else {
                    None
                },
            }
        },
        AccessModel::TrustedProxy { .. } => match parts {
            None => Some("trusted-proxy public origin is invalid"@),
            Some(found) => if open_to_network && origin::scheme_of(found) != "https"@ {
                Some("non-loopback trusted-proxy access requires an HTTPS public origin"@)
            } else {
                None
            },
        },
    }
}

/// Checks an access on an address, given the parts of the access's origin.
pub fn check_access_bind(
    bind: &SocketAddress,
    access: &AccessConfiguration,
    parts: &Option<OriginParts>,
) -> (result: Result<(), String>)
    ensures
        origin::tells(result, access_bind_fault(*bind, access@, origin::parts_model(*parts))),
{
    let open_to_network = !bind.ip.is_loopback();
    match access {
        AccessConfiguration::Local => {
            if open_to_network {
                Err(text::copy_of("non-loopback bind requires authenticated access"))
            } else {
                Ok(())
            }
        },
        AccessConfiguration::Token(configuration) => {
            if open_to_network && configuration.tls.is_none() {
                return Err(text::copy_of("non-loopback token access requires configured TLS"));
            }
            match parts {
                None => Err(text::copy_of("token public origin is invalid")),
                Some(found) => {
                    if open_to_network && !origin::is_https(found) {
                        Err(
                            text::copy_of(
                                "non-loopback token access requires an HTTPS public origin",
                            ),
                        )
                    } else if origin::port_of(found) != bind.port {
                        Err(text::copy_of("token public origin port must match the bind port"))
                    } else {
                        Ok(())
                    }
                },
            }
        },
        AccessConfiguration::TrustedProxy(_) => {
            match parts {
                None => Err(text::copy_of("trusted-proxy public origin is invalid")),
                Some(found) => {
                    if open_to_network && !origin::is_https(found) {
                        Err(
                            text::copy_of(
                                "non-loopback trusted-proxy access requires an HTTPS public origin",
                            ),
                        )
                    } else {
                        Ok(())
                    }
                },
            }
        },
    }
}

/// The origin of an access, where it has one.
pub open spec fn origin_of(access: AccessModel) -> Option<Seq<char>> {
    match access {
        AccessModel::Local => None,
        AccessModel::Token { public_origin, .. } => Some(public_origin),
        AccessModel::TrustedProxy { public_origin, .. } => Some(public_origin),
    }
}

/// Checks an access on an address.
pub fn validate_access_bind(bind: &SocketAddress, access: &AccessConfiguration) -> (result: Result<
    (),
    String,
>)
    ensures
        origin::tells(result, access_bind_fault(*bind, access@, parts_of(origin_of(access@)))),
{
    let parts = match access {
        AccessConfiguration::Local => None,
        AccessConfiguration::Token(configuration) => origin::origin_parts(
            configuration.public_origin.as_str(),
        ),
        AccessConfiguration::TrustedProxy(configuration) => origin::origin_parts(
            configuration.public_origin.as_str(),
        ),
    };
    check_access_bind(bind, access, &parts)
}

/// Whatever is offered beyond loopback is authenticated, and is reached over HTTPS; token access
/// there has its TLS files.
pub proof fn law_open_binds_are_guarded(
    bind: SocketAddress,
    access: AccessModel,
    parts: Option<PartsModel>,
)
    requires
        access_bind_fault(bind, access, parts) is None,
        !origin::is_loopback(bind.ip),
    ensures
        !(access is Local),
        parts matches Some(found) && origin::scheme_of(found) == "https"@,
        access matches AccessModel::Token { tls, .. } ==> tls is Some,
{
}

/// Where the environment says nothing of access, the configured access stands; where it names the
/// mode `local` and nothing else, access is local whatever was configured.
pub proof fn law_silent_environment_keeps_access(
    current: AccessModel,
    environment: EnvironmentModel,
    addresses: Seq<Option<IpAddress>>,
    parts: Option<PartsModel>,
)
    requires
        !overrides_access(environment),
    ensures
        environment.mode is None ==> access_after(current, environment, addresses, parts) == Ok::<
            AccessModel,
            Seq<char>,
        >(current),
        environment_mode(environment.mode) == Ok::<Option<AccessMode>, Seq<char>>(
            Some(AccessMode::Local),
        ) ==> access_after(current, environment, addresses, parts) == Ok::<AccessModel, Seq<char>>(
            AccessModel::Local,
        ),
{
}

} // verus!

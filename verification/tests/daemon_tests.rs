use glim::daemon::access::{
    apply_access_environment_values, apply_access_with, check_access_bind,
    environment_proxy_entries, parse_trusted_proxy_ips, split_proxy_list, validate_access_bind,
    AccessEnvironment,
};
use glim::daemon::cleanup::{
    cleanup_cutoff, log_cleanup_completed, log_cleanup_failed, CleanupFault, RETENTION_SECONDS,
};
use glim::daemon::config::{
    find_configuration_file, parse_limit_environment, resolve_store_root_values, validate_limits,
    AccessConfiguration, ConfigurationFile, DaemonConfiguration, DaemonLimits, StoreRoot, TlsFiles,
    TokenAccessConfiguration, TrustedProxyAccessConfiguration,
};
use glim::daemon::origin::{
    check_origin, origin_parts, port_of, validate_public_origin, IpAddress, OriginParts,
    SocketAddress,
};
use glim::daemon::resolve::{
    accept_configuration_file, apply_environment, choose_bind, resolve_base_with,
    resolve_daemon_configuration_base_values, resolve_daemon_configuration_limit_values,
    resolve_daemon_configuration_values, ConfigurationRead, FileAccessConfiguration,
    FileConfiguration, PlaceEnvironment,
};
use glim::daemon::token::{
    check_token_file, read_access_token, resolve_client_access_token, AccessToken,
};
use glim::logging::{LogLevel, Logger};
use glim::storage::lifecycle::LifecycleReport;

fn bytes(value: &str) -> Option<Vec<u8>> {
    Some(value.as_bytes().to_vec())
}

fn v4(a: u32, b: u32, c: u32, d: u32, port: u16) -> SocketAddress {
    SocketAddress { ip: IpAddress::V4 { bits: (a << 24) | (b << 16) | (c << 8) | d }, scope_id: 0, port }
}

fn loopback(port: u16) -> SocketAddress {
    v4(127, 0, 0, 1, port)
}

fn anywhere(port: u16) -> SocketAddress {
    v4(0, 0, 0, 0, port)
}

fn file() -> FileConfiguration {
    FileConfiguration {
        schema_version: 1,
        store_root: None,
        bind: None,
        access: None,
        limits: None,
    }
}

fn place(store: Option<&str>, bind: Option<&str>) -> PlaceEnvironment {
    PlaceEnvironment {
        store_root: store.and_then(bytes),
        bind: bind.and_then(bytes),
        xdg_data_home: bytes("/xdg-data"),
        home: bytes("/home/test"),
    }
}

fn no_access() -> AccessEnvironment {
    AccessEnvironment {
        mode: None,
        token_file: None,
        public_origin: None,
        tls_certificate: None,
        tls_private_key: None,
        trusted_proxy_ips: None,
    }
}

#[test]
fn store_root_precedence_and_blank_values_are_deterministic() {
    let override_root = bytes("/override");
    let xdg = bytes("/xdg");
    let home = bytes("/home/test");
    assert_eq!(
        resolve_store_root_values(&override_root, &xdg, &home).unwrap(),
        StoreRoot { path: b"/override".to_vec(), explicit_override: true }
    );
    assert_eq!(
        resolve_store_root_values(&None, &xdg, &home).unwrap().path,
        b"/xdg/glim".to_vec()
    );
    assert_eq!(
        resolve_store_root_values(&None, &bytes("  "), &home).unwrap().path,
        b"/home/test/.local/share/glim".to_vec()
    );
    assert!(resolve_store_root_values(&None, &None, &None)
        .unwrap_err()
        .contains("GLIM_STORE_ROOT"));
    assert!(resolve_store_root_values(&bytes(""), &None, &None).is_err());
    assert!(resolve_store_root_values(&bytes("relative"), &None, &None).is_err());
}

fn configured_file() -> Option<FileConfiguration> {
    let mut found = file();
    found.store_root = bytes("/configured");
    found.bind = Some("127.0.0.1:4040".to_owned());
    Some(found)
}

#[test]
fn daemon_configuration_precedence_is_environment_then_file_then_defaults() {
    let environment = place(Some("/environment"), Some("127.0.0.1:5050"));
    assert_eq!(choose_bind(&configured_file(), &environment.bind).unwrap(), "127.0.0.1:5050");
    let configured = resolve_daemon_configuration_values(
        configured_file(),
        &environment,
        Some(loopback(5050)),
        &[],
    )
    .unwrap();
    assert_eq!(configured.store.path, b"/environment".to_vec());
    assert!(configured.store.explicit_override);
    assert_eq!(configured.bind, loopback(5050));

    assert_eq!(choose_bind(&configured_file(), &None).unwrap(), "127.0.0.1:4040");
    let from_file = resolve_daemon_configuration_values(
        configured_file(),
        &place(None, None),
        Some(loopback(4040)),
        &[],
    )
    .unwrap();
    assert_eq!(from_file.store.path, b"/configured".to_vec());
    assert_eq!(from_file.bind, loopback(4040));

    assert_eq!(choose_bind(&None, &None).unwrap(), "127.0.0.1:3030");
    let defaults =
        resolve_daemon_configuration_values(None, &place(None, None), Some(loopback(3030)), &[])
            .unwrap();
    assert_eq!(defaults.store.path, b"/xdg-data/glim".to_vec());
    assert_eq!(defaults.bind, loopback(3030));
    assert_eq!(defaults.limits, DaemonLimits::default());
    assert_eq!(defaults.limits.max_upload_bytes, 536_870_912);
    assert_eq!(defaults.limits.max_finalized_blob_bytes, 21_474_836_480);
}

#[test]
fn configuration_file_discovery_prefers_explicit_then_xdg_then_home() {
    let explicit = bytes("/root/explicit.json");
    let xdg = bytes("/root/xdg");
    let home = bytes("/root/home");
    assert_eq!(
        find_configuration_file(&explicit, &xdg, &home).unwrap(),
        Some(ConfigurationFile { path: b"/root/explicit.json".to_vec(), required: true })
    );
    assert_eq!(
        find_configuration_file(&None, &xdg, &home).unwrap(),
        Some(ConfigurationFile { path: b"/root/xdg/glim/config.json".to_vec(), required: false })
    );
    assert_eq!(
        find_configuration_file(&None, &None, &home).unwrap(),
        Some(ConfigurationFile {
            path: b"/root/home/.config/glim/config.json".to_vec(),
            required: false,
        })
    );
    assert_eq!(find_configuration_file(&None, &None, &None).unwrap(), None);
    assert!(find_configuration_file(&bytes(" "), &xdg, &home).is_err());
    assert!(find_configuration_file(&bytes("relative"), &xdg, &home).is_err());
    assert_eq!(
        accept_configuration_file("/c", true, ConfigurationRead::Bytes(b"explicit".to_vec()))
            .unwrap(),
        Some(b"explicit".to_vec())
    );
    assert_eq!(
        accept_configuration_file("/c", false, ConfigurationRead::Missing).unwrap(),
        None
    );
    assert_eq!(
        accept_configuration_file("/c", true, ConfigurationRead::Missing).unwrap_err(),
        "explicit configuration file does not exist: /c"
    );
    assert_eq!(
        accept_configuration_file("/c", false, ConfigurationRead::Bytes(vec![b' '; 65_537]))
            .unwrap_err(),
        "could not read daemon configuration /c: daemon configuration exceeds 64 KiB"
    );
    assert_eq!(
        accept_configuration_file("/c", false, ConfigurationRead::Irregular).unwrap_err(),
        "could not read daemon configuration /c: configuration path is not a regular file"
    );
    assert_eq!(
        accept_configuration_file("/c", true, ConfigurationRead::Failed("denied".to_owned()))
            .unwrap_err(),
        "could not read daemon configuration /c: denied"
    );
}

fn rejected(
    found: Option<FileConfiguration>,
    store: Option<&str>,
    bind: Option<&str>,
    address: Option<SocketAddress>,
) -> String {
    resolve_daemon_configuration_values(found, &place(store, bind), address, &[]).unwrap_err()
}

#[test]
fn daemon_configuration_rejects_malformed_and_unsafe_values() {
    let mut version = file();
    version.schema_version = 2;
    assert_eq!(
        rejected(Some(version), None, None, Some(loopback(3030))),
        "daemon configuration schema_version must be 1"
    );
    let mut relative = file();
    relative.store_root = bytes("relative");
    assert_eq!(
        rejected(Some(relative), None, None, Some(loopback(3030))),
        "daemon configuration store_root must be an absolute path"
    );
    assert!(!rejected(None, Some(" "), None, Some(loopback(3030))).is_empty());
    assert_eq!(
        rejected(None, None, Some("0.0.0.0:3030"), Some(anywhere(3030))),
        "non-loopback bind requires authenticated access"
    );
    assert_eq!(
        rejected(None, None, Some("127.0.0.1:0"), Some(loopback(0))),
        "daemon bind port must be greater than zero"
    );
    assert_eq!(
        rejected(None, None, Some("localhost:3030"), None),
        "daemon bind must be a numeric IP socket address such as 127.0.0.1:3030"
    );
    assert_eq!(
        rejected(None, None, Some(" "), None),
        "GLIM_BIND must be a nonblank UTF-8 socket address"
    );
}

fn token_file(
    bind: Option<&str>,
    token: &str,
    origin: &str,
    certificate: Option<&str>,
    key: Option<&str>,
) -> Option<FileConfiguration> {
    let mut found = file();
    found.bind = bind.map(str::to_owned);
    found.access = Some(FileAccessConfiguration::Token {
        token_file: token.as_bytes().to_vec(),
        public_origin: origin.to_owned(),
        tls_certificate: certificate.and_then(bytes),
        tls_private_key: key.and_then(bytes),
    });
    Some(found)
}

#[test]
fn token_mode_requires_absolute_credentials_and_tls_for_non_loopback() {
    let configured = resolve_daemon_configuration_values(
        token_file(
            Some("0.0.0.0:3443"),
            "/secrets/token",
            "https://glim.example:3443",
            Some("/secrets/cert.pem"),
            Some("/secrets/key.pem"),
        ),
        &place(None, None),
        Some(anywhere(3443)),
        &[],
    )
    .unwrap();
    assert_eq!(configured.bind, anywhere(3443));
    assert_eq!(
        configured.access,
        AccessConfiguration::Token(TokenAccessConfiguration {
            token_file: b"/secrets/token".to_vec(),
            public_origin: "https://glim.example:3443".to_owned(),
            tls: Some(TlsFiles {
                certificate: b"/secrets/cert.pem".to_vec(),
                private_key: b"/secrets/key.pem".to_vec(),
            }),
        })
    );

    let mut local = file();
    local.access = Some(FileAccessConfiguration::Local);
    assert!(!rejected(Some(local), None, None, Some(anywhere(3443))).is_empty());
    assert_eq!(
        rejected(
            token_file(None, "/token", "https://glim.example:3443", None, None),
            None,
            None,
            Some(anywhere(3443))
        ),
        "non-loopback token access requires configured TLS"
    );
    assert_eq!(
        rejected(
            token_file(None, "relative", "http://127.0.0.1:3030", None, None),
            None,
            None,
            Some(loopback(3030))
        ),
        "daemon configuration access.token_file must be an absolute path"
    );
    assert_eq!(
        rejected(
            token_file(None, "/token", "http://127.0.0.1:3030", Some("/cert"), None),
            None,
            None,
            Some(loopback(3030))
        ),
        "token access requires both tls_certificate and tls_private_key"
    );
    assert_eq!(
        rejected(
            token_file(None, "/token", "https://glim.example/path", None, None),
            None,
            None,
            Some(loopback(3030))
        ),
        "public_origin must contain only an HTTP or HTTPS origin"
    );
    assert_eq!(
        rejected(
            token_file(None, "/token", "http://127.0.0.1:4040", None, None),
            None,
            None,
            Some(loopback(3030))
        ),
        "token public origin port must match the bind port"
    );
}

fn proxy_file(ips: &[&str], origin: &str) -> Option<FileConfiguration> {
    let mut found = file();
    found.access = Some(FileAccessConfiguration::TrustedProxy {
        trusted_proxy_ips: ips.iter().map(|ip| ip.to_string()).collect(),
        public_origin: origin.to_owned(),
    });
    Some(found)
}

const ONE: IpAddress = IpAddress::V4 { bits: 0x7f00_0001 };
const SIX: IpAddress = IpAddress::V6 { bits: 1 };

#[test]
fn trusted_proxy_configuration_requires_exact_ips_and_https_for_non_loopback() {
    let configured = resolve_daemon_configuration_values(
        proxy_file(&["127.0.0.1", "::1"], "https://glim.example"),
        &place(None, None),
        Some(anywhere(3030)),
        &[Some(ONE), Some(SIX)],
    )
    .unwrap();
    assert_eq!(
        configured.access,
        AccessConfiguration::TrustedProxy(TrustedProxyAccessConfiguration {
            trusted_proxy_ips: vec![ONE, SIX],
            public_origin: "https://glim.example".to_owned(),
        })
    );

    let refused = |ips: &[&str], addresses: &[Option<IpAddress>], origin: &str, address| {
        resolve_daemon_configuration_values(
            proxy_file(ips, origin),
            &place(None, None),
            Some(address),
            addresses,
        )
        .unwrap_err()
    };
    assert_eq!(
        refused(&[], &[], "http://127.0.0.1:3030", loopback(3030)),
        "trusted proxy access requires at least one proxy IP"
    );
    assert_eq!(
        refused(&["proxy.example"], &[None], "http://127.0.0.1:3030", loopback(3030)),
        "trusted proxy IPs must be exact numeric IPv4 or IPv6 addresses"
    );
    assert_eq!(
        refused(&["127.0.0.0/8"], &[None], "http://127.0.0.1:3030", loopback(3030)),
        "trusted proxy IPs must be exact numeric IPv4 or IPv6 addresses"
    );
    assert_eq!(
        refused(&[""], &[None], "http://127.0.0.1:3030", loopback(3030)),
        "trusted proxy IPs must not contain blank entries"
    );
    assert_eq!(
        refused(&["127.0.0.1"], &[Some(ONE)], "http://glim.example:3030", anywhere(3030)),
        "non-loopback trusted-proxy access requires an HTTPS public origin"
    );
}

fn environment(
    mode: Option<&str>,
    token: Option<&str>,
    origin: Option<&str>,
    certificate: Option<&str>,
    key: Option<&str>,
    proxies: Option<&str>,
) -> AccessEnvironment {
    AccessEnvironment {
        mode: mode.and_then(bytes),
        token_file: token.and_then(bytes),
        public_origin: origin.and_then(bytes),
        tls_certificate: certificate.and_then(bytes),
        tls_private_key: key.and_then(bytes),
        trusted_proxy_ips: proxies.and_then(bytes),
    }
}

#[test]
fn trusted_proxy_environment_overrides_file_and_rejects_unrelated_settings() {
    let current = resolve_daemon_configuration_values(
        proxy_file(&["127.0.0.2"], "http://127.0.0.1:3030"),
        &place(None, None),
        Some(loopback(3030)),
        &[Some(IpAddress::V4 { bits: 0x7f00_0002 })],
    )
    .unwrap()
    .access;
    let settings = environment(
        Some("trusted_proxy"),
        None,
        Some("https://glim.example"),
        None,
        None,
        Some("127.0.0.1, ::1"),
    );
    assert_eq!(environment_proxy_entries(&settings.trusted_proxy_ips), ["127.0.0.1", "::1"]);
    let access =
        apply_access_environment_values(current, &settings, &[Some(ONE), Some(SIX)]).unwrap();
    assert_eq!(
        access,
        AccessConfiguration::TrustedProxy(TrustedProxyAccessConfiguration {
            trusted_proxy_ips: vec![ONE, SIX],
            public_origin: "https://glim.example".to_owned(),
        })
    );

    for (mode, token, certificate, proxies, addresses) in [
        ("trusted_proxy", Some("/token"), None, "127.0.0.1", vec![Some(ONE)]),
        ("trusted_proxy", None, Some("/cert"), "127.0.0.1", vec![Some(ONE)]),
        ("token", None, None, "127.0.0.1", vec![Some(ONE)]),
        ("trusted_proxy", None, None, "", vec![]),
        ("trusted_proxy", None, None, "127.0.0.1,localhost", vec![Some(ONE), None]),
    ] {
        let settings = environment(
            Some(mode),
            token,
            Some("https://glim.example"),
            certificate,
            None,
            Some(proxies),
        );
        assert!(apply_access_environment_values(AccessConfiguration::Local, &settings, &addresses)
            .is_err());
    }
}

#[test]
fn token_environment_overrides_file_access_before_bind_validation() {
    let access = apply_access_environment_values(
        AccessConfiguration::Local,
        &environment(
            Some("token"),
            Some("/environment/token"),
            Some("https://glim.example:3443"),
            Some("/environment/cert.pem"),
            Some("/environment/key.pem"),
            None,
        ),
        &[],
    )
    .unwrap();
    assert!(matches!(access, AccessConfiguration::Token(_)));
    validate_access_bind(&anywhere(3443), &access).unwrap();
    assert!(validate_access_bind(&anywhere(3444), &access).is_err());

    for (mode, token, origin, certificate, message) in [
        (
            "unknown",
            None,
            None,
            None,
            "GLIM_ACCESS_MODE must be local, token, or trusted_proxy",
        ),
        (
            "token",
            None,
            None,
            None,
            "token access requires GLIM_TOKEN_FILE or access.token_file",
        ),
        (
            "local",
            Some("/token"),
            None,
            None,
            "local access mode does not accept access overrides",
        ),
        (
            "token",
            Some("relative"),
            Some("http://127.0.0.1:3030"),
            None,
            "daemon configuration access.token_file must be an absolute path",
        ),
        (
            "token",
            Some("/token"),
            Some("http://127.0.0.1:3030"),
            Some("/cert"),
            "token access requires both TLS path overrides",
        ),
        (
            "token",
            Some("/token"),
            None,
            None,
            "token access requires GLIM_PUBLIC_ORIGIN or access.public_origin",
        ),
    ] {
        let settings = environment(Some(mode), token, origin, certificate, None, None);
        assert_eq!(
            apply_access_environment_values(AccessConfiguration::Local, &settings, &[])
                .unwrap_err(),
            message
        );
    }
}

fn https_parts() -> Option<OriginParts> {
    Some(OriginParts {
        scheme: Some("https".to_owned()),
        authority: Some("glim.example".to_owned()),
        port: None,
    })
}

#[test]
fn given_parts_decide_on_origins() {
    assert!(check_origin("https://glim.example", &https_parts()).is_ok());
    assert!(check_origin("https://glim.example/", &https_parts()).is_err());
    assert_eq!(
        check_origin("x", &None).unwrap_err(),
        "public_origin must be an HTTP or HTTPS origin"
    );
    let mut bare = https_parts().unwrap();
    bare.authority = None;
    assert_eq!(
        check_origin("/path", &Some(bare)).unwrap_err(),
        "public_origin must include an authority"
    );
    assert_eq!(port_of(&https_parts().unwrap()), 443);
    let settings =
        environment(Some("token"), Some("/t"), Some("https://glim.example"), None, None, None);
    assert!(
        apply_access_with(AccessConfiguration::Local, &settings, &[], &https_parts()).is_ok()
    );
    assert!(apply_access_with(AccessConfiguration::Local, &settings, &[], &None).is_err());
    assert!(check_access_bind(&loopback(1), &AccessConfiguration::Local, &None).is_ok());
    assert!(resolve_base_with(None, &place(None, None), Some(loopback(1)), &[], &None).is_ok());
    assert!(
        resolve_daemon_configuration_base_values(None, &place(None, None), None, &[]).is_err()
    );
}

#[test]
fn origins_are_read_by_their_parts() {
    let parts = origin_parts("https://glim.example:8443").unwrap();
    assert_eq!(parts.scheme.as_deref(), Some("https"));
    assert_eq!(parts.authority.as_deref(), Some("glim.example:8443"));
    assert_eq!(parts.port, Some(8443));
    assert!(origin_parts("http://exa mple").is_none());
    assert!(validate_public_origin("http://127.0.0.1:3030").is_ok());
    assert!(validate_public_origin("ftp://127.0.0.1").is_err());
    assert!(validate_public_origin("https://user@glim.example").is_err());
}

#[test]
fn loopback_addresses_are_told_apart() {
    assert!(ONE.is_loopback());
    assert!(IpAddress::V4 { bits: 0x7fff_ffff }.is_loopback());
    assert!(SIX.is_loopback());
    assert!(!IpAddress::V4 { bits: 0x0a00_0001 }.is_loopback());
    assert!(!IpAddress::V6 { bits: 2 }.is_loopback());
}

#[test]
fn proxies_are_listed_once() {
    let entries = split_proxy_list("127.0.0.1 , ::1,127.0.0.1");
    assert_eq!(entries, ["127.0.0.1", "::1", "127.0.0.1"]);
    let list = parse_trusted_proxy_ips(&entries, &[Some(ONE), Some(SIX), Some(ONE)]).unwrap();
    assert_eq!(list, [ONE, SIX]);
}

#[test]
fn limits_come_from_the_environment_first() {
    let mut found = file();
    found.limits = Some(DaemonLimits { max_upload_bytes: 10, max_finalized_blob_bytes: 20 });
    let found = Some(found);
    let limits =
        resolve_daemon_configuration_limit_values(&found, &bytes("15"), &None).unwrap();
    assert_eq!(limits, DaemonLimits { max_upload_bytes: 15, max_finalized_blob_bytes: 20 });
    assert_eq!(
        resolve_daemon_configuration_limit_values(&found, &bytes("21"), &None).unwrap_err(),
        "max_upload_bytes must not exceed max_finalized_blob_bytes"
    );
    assert_eq!(
        parse_limit_environment("X", &bytes("0")).unwrap_err(),
        "X must be greater than zero"
    );
    assert_eq!(
        parse_limit_environment("X", &bytes("+5")).unwrap_err(),
        "X must be nonzero decimal bytes"
    );
    assert_eq!(
        parse_limit_environment("X", &bytes("18446744073709551616")).unwrap_err(),
        "X exceeds the supported byte range"
    );
    assert_eq!(
        parse_limit_environment("X", &Some(vec![0xff])).unwrap_err(),
        "X must be decimal bytes"
    );
    assert_eq!(parse_limit_environment("X", &bytes("007")).unwrap(), Some(7));
    assert_eq!(
        validate_limits(DaemonLimits { max_upload_bytes: 0, max_finalized_blob_bytes: 1 })
            .unwrap_err(),
        "daemon limits must be greater than zero"
    );
}

#[test]
fn the_environment_finishes_a_configuration() {
    let base = DaemonConfiguration {
        store: StoreRoot { path: b"/store".to_vec(), explicit_override: true },
        bind: loopback(3030),
        access: AccessConfiguration::Local,
        limits: DaemonLimits::default(),
    };
    let found =
        apply_environment(base, &bytes("5"), &bytes("6"), &no_access(), &[]).unwrap();
    assert_eq!(found.limits, DaemonLimits { max_upload_bytes: 5, max_finalized_blob_bytes: 6 });
    assert_eq!(found.access, AccessConfiguration::Local);
    assert_eq!(found.store.path, b"/store".to_vec());
    let open = DaemonConfiguration {
        store: StoreRoot { path: b"/store".to_vec(), explicit_override: true },
        bind: anywhere(3030),
        access: AccessConfiguration::Local,
        limits: DaemonLimits::default(),
    };
    assert!(apply_environment(open, &None, &None, &no_access(), &[]).is_err());
}

#[test]
fn access_tokens_are_private_and_strictly_validated() {
    let digits = "a".repeat(64);
    let token = AccessToken::parse(&digits).unwrap();
    assert_eq!(token.expose(), digits);
    assert_eq!(
        AccessToken::parse("short").err().unwrap(),
        "access token must contain exactly 64 lowercase hexadecimal characters"
    );
    let first = AccessToken::generate().unwrap();
    assert_eq!(first.expose().len(), 64);
    assert!(first.expose().bytes().all(|byte| byte.is_ascii_hexdigit()));
    let second = AccessToken::generate().unwrap();
    assert_ne!(first.expose(), second.expose());
    assert!(check_token_file(true, 0o100600).is_ok());
    assert_eq!(
        check_token_file(true, 0o100644).unwrap_err(),
        "access token file permissions must not grant group or other access"
    );
    assert_eq!(
        check_token_file(false, 0o100600).unwrap_err(),
        "access token path must be a regular non-symlink file"
    );
    assert_eq!(
        read_access_token("short").err().unwrap(),
        "access token file must contain exactly 64 lowercase hexadecimal characters"
    );
    assert!(read_access_token(&digits).is_ok());
    assert_eq!(resolve_client_access_token(&AccessConfiguration::Local), None);
    assert_eq!(
        resolve_client_access_token(&AccessConfiguration::Token(TokenAccessConfiguration {
            token_file: b"/token".to_vec(),
            public_origin: "http://127.0.0.1:3030".to_owned(),
            tls: None,
        })),
        bytes("/token")
    );
}

#[test]
fn cleanup_happens_seven_days_after_the_last_activity() {
    assert_eq!(RETENTION_SECONDS, 604_800);
    assert_eq!(cleanup_cutoff(Some(604_801)).unwrap(), 1);
    assert_eq!(
        cleanup_cutoff(Some(604_799)).unwrap_err(),
        "system clock predates the seven-day retention window"
    );
    assert_eq!(cleanup_cutoff(None).unwrap_err(), "system clock is before the Unix epoch");
    assert_eq!(
        cleanup_cutoff(Some(u64::MAX)).unwrap_err(),
        "system clock exceeds signed Unix seconds"
    );
}

#[test]
fn cleanups_are_logged() {
    let report = LifecycleReport {
        sessions_deleted: 1,
        projects_deleted: 2,
        posts_deleted: 3,
        post_files_deleted: 4,
        support_assets_deleted: 5,
        blob_references_deleted: 6,
        blobs_queued: 7,
        blobs_deleted: 8,
    };
    let line =
        log_cleanup_completed(&Logger::new(LogLevel::Info), "startup", &report, Some(12)).unwrap();
    let value: serde_json::Value = serde_json::from_slice(&line).unwrap();
    assert_eq!(value["event"], "cleanup_completed");
    assert_eq!(value["level"], "info");
    assert_eq!(value["timestamp"], 12);
    assert_eq!(value["trigger"], "startup");
    assert_eq!(value["blobs_deleted"], 8);
    assert!(log_cleanup_completed(&Logger::new(LogLevel::Warn), "startup", &report, None).is_none());
    let line = log_cleanup_failed(
        &Logger::new(LogLevel::Error),
        "periodic",
        CleanupFault::Worker,
        Some(1),
    )
    .unwrap();
    let value: serde_json::Value = serde_json::from_slice(&line).unwrap();
    assert_eq!(value["event"], "cleanup_failed");
    assert_eq!(value["category"], "cleanup_worker_failed");
}

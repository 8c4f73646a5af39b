use glim::api::artifact::{
    artifact_headers, has_html_file, parse_range, plan_answer, safe_filename, ArtifactAnswer,
    RangeRequest,
};
use glim::api::auth::{
    authenticate_headers, authentication_not_configured, authorize_proxied, authorize_request,
    capability_not_found, constant_time_equal, cookie_value, create_html_capability, header_text,
    log_in, log_out, open_capability, open_session, session_cookie, support_path_prefix,
    proxy_refusal, use_capability, Access, AccessHeaders, AuthenticatedBy, Grants, GrantScope, ProxyAccess,
    BROWSER_SESSION_LIMIT, BROWSER_SESSION_SECONDS, HTML_CAPABILITY_LIMIT,
    HTML_CAPABILITY_SECONDS,
};
use glim::api::error::ApiError;
use glim::api::feed::{
    announces_closing, check_heartbeat_body, daemon_unix_seconds, event_matches, feed_action,
    feed_start, last_event_id, malformed_query, ChannelEvent, EventPlace, FeedAction, FeedScope,
    FeedStart,
};
use glim::api::manifest::{
    assemble_request, check_first_part, extend_manifest, interrupted_multipart,
    malformed_manifest, malformed_multipart, manifest_text, validate_manifest, validate_nonblank,
    validate_resolve_session, ManifestFile, ManifestSupportAsset, PartLedger, PublicationManifest,
    ResolveSessionRequest,
};
use glim::api::paths::{
    artifact_path_is_unsafe, check_support_path, file_position, has_malformed_percent,
    is_project_page, is_session_page, is_v1_path, method_not_allowed, positive_id, support_path,
    v1_not_found, validate_v1_path,
};
use glim::api::auth::lists_peer;
use glim::api::paths::api_v1_routes;
use glim::daemon::origin::IpAddress;
use glim::daemon::token::AccessToken;
use glim::details::{Detail, DetailValue};
use glim::storage::blob::{BlobHash, BlobIntegrityError, BlobRecord};
use glim::storage::classification::ArtifactRenderer;
use glim::storage::error::StoreError;
use glim::storage::lifecycle::LifecycleReport;
use glim::storage::publication::StagedPublicationBlob;
use glim::storage::read::{BlobRead, GitProvenance, PostFileRead};

fn told(error: &ApiError) -> (u16, &str, &str) {
    (error.status, &error.body.error.code, &error.body.error.message)
}

fn token(digit: char) -> AccessToken {
    AccessToken::parse(&digit.to_string().repeat(64)).unwrap()
}

fn digits(digit: char) -> String {
    digit.to_string().repeat(64)
}

// ---- paths ----

#[test]
fn versioned_paths_are_told_apart() {
    assert!(is_v1_path("/api/v1"));
    assert!(is_v1_path("/api/v1/posts"));
    assert!(!is_v1_path("/api/v10"));
    assert!(!is_v1_path("/feed"));
}

#[test]
fn support_paths_may_not_hide_separators() {
    assert!(!artifact_path_is_unsafe("/api/v1/posts//1"));
    assert!(!artifact_path_is_unsafe("/api/v1/posts/1/files/0/support/a/b.css"));
    for tail in ["a%2Fb", "a%5cb", "a//b", "a/./b", "../b", "%2E/b", "%2e%2E/b"] {
        assert!(artifact_path_is_unsafe(&format!("/api/v1/posts/1/files/0/support/{tail}")));
    }
    let error = validate_v1_path("/api/v1/posts/1/files/0/support/a//b").unwrap_err();
    assert_eq!(told(&error), (400, "malformed_path", "Artifact path is malformed"));
    assert!(validate_v1_path("/elsewhere/support/a//b").is_ok());
}

#[test]
fn percent_encodings_must_be_complete_utf8() {
    assert!(!has_malformed_percent("/a%20b"));
    assert!(!has_malformed_percent("/%C3%A9"));
    assert!(has_malformed_percent("/a%2"));
    assert!(has_malformed_percent("/a%zz"));
    assert!(has_malformed_percent("/%ff"));
    let error = validate_v1_path("/api/v1/sessions/%ff").unwrap_err();
    assert_eq!(
        told(&error),
        (400, "malformed_path", "Path contains malformed percent encoding")
    );
    assert_eq!(
        told(&v1_not_found("/api/v1/nothing")),
        (404, "api_route_not_found", "API route was not found")
    );
    assert_eq!(v1_not_found("/api/v1/%").status, 400);
    assert_eq!(
        told(&method_not_allowed()),
        (405, "method_not_allowed", "HTTP method is not allowed for this API route")
    );
}

#[test]
fn path_numbers_are_read_strictly() {
    assert_eq!(positive_id("7").unwrap(), 7);
    assert_eq!(positive_id("+7").unwrap(), 7);
    for value in ["0", "-1", "", "9223372036854775808", "1a"] {
        assert_eq!(
            told(&positive_id(value).unwrap_err()),
            (400, "malformed_path", "Path identifier must be a positive integer")
        );
    }
    assert_eq!(file_position("0").unwrap(), 0);
    assert_eq!(file_position("4294967295").unwrap(), u32::MAX);
    assert_eq!(
        told(&file_position("4294967296").unwrap_err()),
        (400, "malformed_path", "File position must be a nonnegative integer")
    );
}

#[test]
fn support_assets_are_named_plainly() {
    assert!(support_path("css/site.css"));
    for path in ["", "a\\b", "a\u{7}b", "a//b", "/a", "a/", "./a", "a/.."] {
        assert!(!support_path(path));
        assert_eq!(
            told(&check_support_path(path).unwrap_err()),
            (400, "malformed_path", "Support asset path is malformed")
        );
    }
}

#[test]
fn pages_exist_for_plausible_identifiers_only() {
    assert!(is_session_page("111111"));
    assert!(is_session_page("zzzzzzz"));
    assert!(!is_session_page("11111"));
    assert!(!is_session_page("11111O"));
    assert!(!is_session_page("11111\u{e9}"));
    assert!(is_project_page("9007199254740991"));
    assert!(!is_project_page("9007199254740992"));
    assert!(!is_project_page("0"));
    assert!(!is_project_page("x"));
}

// ---- access ----

#[test]
fn secrets_are_compared_whole() {
    assert!(constant_time_equal("abc", "abc"));
    assert!(!constant_time_equal("abc", "abd"));
    assert!(!constant_time_equal("abc", "ab"));
    assert!(constant_time_equal("", ""));
}

#[test]
fn header_text_is_visible_ascii() {
    assert_eq!(header_text(b"a\tb c").as_deref(), Some("a\tb c"));
    assert_eq!(header_text(&[0xc3, 0xa9]), None);
    assert_eq!(header_text(&[0x7f]), None);
}

#[test]
fn the_first_cookie_of_a_name_counts() {
    let headers = vec![b"a=1; glim_sessions=2".to_vec(), b" glim_session=x=y ; glim_session=z".to_vec()];
    assert_eq!(cookie_value(&headers, "glim_session").as_deref(), Some("x=y"));
    assert_eq!(cookie_value(&headers, "b"), None);
    let broken = vec![vec![0xff], b"glim_session=k".to_vec()];
    assert_eq!(cookie_value(&broken, "glim_session").as_deref(), Some("k"));
}

#[test]
fn grants_are_bounded_and_expire() {
    let mut grants = Grants::none();
    grants.grant("a", None, 10, 5, 2);
    grants.grant("b", None, 11, 5, 2);
    assert_eq!(grants.count(), 2);
    grants.grant("c", None, 12, 5, 2);
    assert_eq!(grants.count(), 2);
    assert!(!grants.counts("a", 12));
    assert!(grants.counts("b", 15));
    assert!(!grants.counts("b", 16));
    assert!(grants.counts("c", 16));
    grants.revoke("c");
    assert!(!grants.counts("c", 16));
    assert_eq!((BROWSER_SESSION_LIMIT, BROWSER_SESSION_SECONDS), (128, 43_200));
    assert_eq!((HTML_CAPABILITY_LIMIT, HTML_CAPABILITY_SECONDS), (256, 300));
}

#[test]
fn grants_are_renewed_within_their_scope() {
    let mut grants = Grants::none();
    let scope = GrantScope { post_id: 3, position: 1 };
    grants.grant("k", Some(scope), 0, 300, 256);
    assert!(!grants.renew("k", GrantScope { post_id: 3, position: 2 }, 100, 300));
    assert!(grants.renew("k", scope, 100, 300));
    assert!(grants.counts("k", 399));
    assert!(!grants.renew("k", scope, 400, 300));
    assert_eq!(grants.count(), 0);
}

fn headers(authorization: Option<&str>, cookie: Option<&str>, origin: Option<&str>) -> AccessHeaders {
    AccessHeaders {
        authorization: authorization.map(|value| value.as_bytes().to_vec()),
        cookies: cookie.map(|value| value.as_bytes().to_vec()).into_iter().collect(),
        origin: origin.map(|value| value.as_bytes().to_vec()),
    }
}

#[test]
fn bearers_outweigh_cookies() {
    let token = token('a');
    let mut sessions = Grants::none();
    open_session(&mut sessions, "s", 100, false);
    let bearer = format!("Bearer {}", digits('a'));
    let given = headers(Some(&bearer), None, None);
    assert!(matches!(
        authenticate_headers(&given, &token, &mut sessions, None),
        Some(AuthenticatedBy::Bearer)
    ));
    let wrong = headers(Some("Bearer x"), Some("glim_session=s"), None);
    assert!(authenticate_headers(&wrong, &token, &mut sessions, Some(100)).is_none());
    let cookie = headers(None, Some("glim_session=s"), None);
    assert!(matches!(
        authenticate_headers(&cookie, &token, &mut sessions, Some(100)),
        Some(AuthenticatedBy::Cookie)
    ));
    assert!(authenticate_headers(&cookie, &token, &mut sessions, None).is_none());
    assert!(authenticate_headers(&cookie, &token, &mut sessions, Some(43_300)).is_none());
}

fn asked(path: &str, method: &str, given: &AccessHeaders, sessions: &mut Grants) -> Access {
    authorize_request(path, method, given, &token('a'), "https://glim.example", sessions, Some(100))
}

#[test]
fn requests_need_credentials_but_for_public_paths() {
    let mut sessions = Grants::none();
    open_session(&mut sessions, "s", 100, false);
    let nothing = headers(None, None, None);
    for path in
        ["/api/v1/health", "/login", "/assets/app.js", "/assets/pdf.worker.mjs", "/cap/x/y"]
    {
        assert!(matches!(asked(path, "GET", &nothing, &mut sessions), Access::Pass));
    }
    assert!(matches!(
        asked("/api/v1/auth/session", "POST", &nothing, &mut sessions),
        Access::Pass
    ));
    match asked("/api/v1/auth/session", "DELETE", &nothing, &mut sessions) {
        Access::Challenge(error) => assert_eq!(
            told(&error),
            (401, "authentication_required", "Authentication is required")
        ),
        _ => panic!("a challenge is due"),
    }
    assert!(matches!(asked("/feed", "GET", &nothing, &mut sessions), Access::LogIn));
    let cookie = headers(None, Some("glim_session=s"), None);
    assert!(matches!(asked("/api/v1/posts", "GET", &cookie, &mut sessions), Access::Pass));
    match asked("/api/v1/posts", "POST", &cookie, &mut sessions) {
        Access::Refused(error) => assert_eq!(
            told(&error),
            (
                403,
                "origin_rejected",
                "Cookie-authenticated mutation requires the configured origin"
            )
        ),
        _ => panic!("a refusal is due"),
    }
    let same = headers(None, Some("glim_session=s"), Some("https://glim.example"));
    assert!(matches!(asked("/api/v1/posts", "POST", &same, &mut sessions), Access::Pass));
    let bearer = format!("Bearer {}", digits('a'));
    let bearing = headers(Some(&bearer), None, None);
    assert!(matches!(asked("/api/v1/posts", "POST", &bearing, &mut sessions), Access::Pass));
}

#[test]
fn proxied_requests_come_from_listed_peers() {
    let origin = "https://glim.example";
    let same = Some(origin.as_bytes().to_vec());
    let other = Some(b"https://other.example".to_vec());
    let pass = |path: &str, method: &str, listed, origin_given: &Option<Vec<u8>>, fetched| {
        authorize_proxied(path, method, listed, origin_given, fetched, origin)
    };
    assert!(matches!(pass("/api/v1/health", "GET", false, &None, false), ProxyAccess::Pass));
    assert!(matches!(pass("/feed", "GET", false, &None, false), ProxyAccess::PeerRefused));
    assert!(matches!(pass("/api/v1/posts", "POST", true, &None, false), ProxyAccess::Pass));
    assert!(matches!(pass("/api/v1/posts", "POST", true, &None, true), ProxyAccess::OriginRefused));
    assert!(matches!(pass("/api/v1/posts", "POST", true, &other, false), ProxyAccess::OriginRefused));
    assert!(matches!(pass("/api/v1/posts", "POST", true, &same, true), ProxyAccess::Pass));
    assert!(matches!(pass("/api/v1/posts", "GET", true, &other, true), ProxyAccess::Pass));
}

#[test]
fn refusals_of_proxied_requests_say_why() {
    assert!(proxy_refusal(ProxyAccess::Pass).is_none());
    let peer = proxy_refusal(ProxyAccess::PeerRefused).unwrap();
    assert_eq!(peer.status, 403);
    assert_eq!(peer.body.error.code, "peer_rejected");
    assert_eq!(peer.body.error.message, "Request peer is not trusted");
    let origin = proxy_refusal(ProxyAccess::OriginRefused).unwrap();
    assert_eq!(origin.status, 403);
    assert_eq!(origin.body.error.code, "origin_rejected");
    assert_eq!(origin.body.error.message, "Browser mutation requires the configured origin");
    assert!(origin.body.error.details.is_empty());
}

#[test]
fn logging_in_opens_a_session_and_logging_out_ends_it() {
    let mut sessions = Grants::none();
    assert_eq!(
        session_cookie("s", 43_200, true),
        "glim_session=s; Path=/; HttpOnly; SameSite=Strict; Max-Age=43200; Secure"
    );
    let cookie = log_in(&mut sessions, &token('a'), &digits('a'), Some(5), false).unwrap();
    let secret = &cookie["glim_session=".len().."glim_session=".len() + 64];
    assert_eq!(
        cookie,
        format!("glim_session={secret}; Path=/; HttpOnly; SameSite=Strict; Max-Age=43200")
    );
    assert!(sessions.counts(secret, 43_204));
    let error = log_in(&mut sessions, &token('a'), &digits('b'), Some(5), false).unwrap_err();
    assert_eq!(told(&error), (401, "invalid_credentials", "Credentials were rejected"));
    assert_eq!(log_in(&mut sessions, &token('a'), &digits('a'), None, false).unwrap_err().status, 500);
    let given = vec![format!("glim_session={secret}").into_bytes()];
    assert_eq!(
        log_out(&mut sessions, &given, true),
        "glim_session=; Path=/; HttpOnly; SameSite=Strict; Max-Age=0; Secure"
    );
    assert!(!sessions.counts(secret, 6));
    assert_eq!(
        told(&authentication_not_configured()),
        (409, "authentication_not_configured", "Token authentication is not configured")
    );
}

#[test]
fn a_returned_cookie_counts_for_twelve_hours() {
    let mut sessions = Grants::none();
    let token = token('a');
    let cookie = log_in(&mut sessions, &token, &digits('a'), Some(100), true).unwrap();
    let returned = &cookie[..cookie.find(';').unwrap()];
    let given = headers(None, Some(returned), None);
    assert!(authenticate_headers(&given, &token, &mut sessions, Some(43_299)).is_some());
    assert_eq!(sessions.count(), 1);
    assert!(matches!(asked("/login", "GET", &given, &mut sessions), Access::Pass));
    assert!(authenticate_headers(&given, &token, &mut sessions, Some(43_300)).is_none());
    assert_eq!(sessions.count(), 0);
}

#[test]
fn capabilities_open_one_support_subtree() {
    let mut capabilities = Grants::none();
    assert_eq!(support_path_prefix(4, 2), "/api/v1/posts/4/files/2/support/");
    assert_eq!(
        open_capability(&mut capabilities, "k", 4, 2, 10),
        "/cap/k/api/v1/posts/4/files/2/support/"
    );
    assert!(use_capability(&mut capabilities, "k", 4, 2, 300).is_ok());
    assert!(use_capability(&mut capabilities, "k", 4, 2, 599).is_ok());
    let error = use_capability(&mut capabilities, "k", 4, 3, 600).unwrap_err();
    assert_eq!(told(&error), (404, "artifact_not_found", "Artifact was not found"));
    assert_eq!(capability_not_found().status, 404);
    assert!(use_capability(&mut capabilities, "k", 4, 2, 899).is_err());
    let prefix = create_html_capability(&mut capabilities, 9, 0, Some(1)).unwrap();
    assert_eq!(prefix.len(), "/cap//api/v1/posts/9/files/0/support/".len() + 64);
    assert!(prefix.starts_with("/cap/"));
    assert_eq!(create_html_capability(&mut capabilities, 9, 0, None).unwrap_err().status, 500);
}

// ---- artifacts ----

#[test]
fn ranges_are_read_as_one_span() {
    assert_eq!(parse_range(None, 10), RangeRequest::Whole);
    let part = |header: &str, length| parse_range(Some(header.as_bytes()), length);
    assert_eq!(part("bytes=0-3", 10), RangeRequest::Part { start: 0, end: 3 });
    assert_eq!(part("bytes=4-", 10), RangeRequest::Part { start: 4, end: 9 });
    assert_eq!(part("bytes=4-99", 10), RangeRequest::Part { start: 4, end: 9 });
    assert_eq!(part("bytes=-3", 10), RangeRequest::Part { start: 7, end: 9 });
    assert_eq!(part("bytes=-30", 10), RangeRequest::Part { start: 0, end: 9 });
    for header in
        ["bytes=10-", "bytes=5-4", "bytes=-0", "bytes=0-1,3-4", "items=0-1", "bytes=x-", "bytes=1"]
    {
        assert_eq!(part(header, 10), RangeRequest::Unsatisfiable);
    }
    assert_eq!(part("bytes=-1", 0), RangeRequest::Unsatisfiable);
}

#[test]
fn answers_follow_the_range() {
    assert_eq!(
        plan_answer(Some(b"bytes=2-4"), 10, false),
        ArtifactAnswer {
            status: 206,
            start: 2,
            length: 3,
            content_range: Some("bytes 2-4/10".to_owned()),
            has_body: true,
        }
    );
    assert_eq!(
        plan_answer(Some(b"bytes=20-"), 10, false),
        ArtifactAnswer {
            status: 416,
            start: 0,
            length: 0,
            content_range: Some("bytes */10".to_owned()),
            has_body: false,
        }
    );
    let whole = plan_answer(None, 10, true);
    assert_eq!((whole.status, whole.length, whole.has_body), (200, 10, false));
    assert!(!plan_answer(None, 0, false).has_body);
}

#[test]
fn artifact_headers_keep_names_safe() {
    assert_eq!(safe_filename("a b\"\r\n\u{e9}.png"), "a_b____.png");
    assert_eq!(safe_filename(""), "download");
    let headers = artifact_headers("application/octet-stream", "x.bin", 12);
    let value = |name: &str| {
        headers.iter().find(|entry| entry.0 == name).map(|entry| entry.1.clone()).unwrap()
    };
    assert_eq!(value("content-type"), "application/octet-stream");
    assert_eq!(value("content-length"), "12");
    assert_eq!(value("accept-ranges"), "bytes");
    assert_eq!(value("cache-control"), "private, max-age=31536000, immutable");
    assert_eq!(value("x-content-type-options"), "nosniff");
    assert_eq!(value("content-security-policy"), "default-src 'none'; sandbox");
    assert_eq!(value("content-disposition"), "attachment; filename=\"x.bin\"");
    assert!(artifact_headers("image/png", "x.png", 1)
        .iter()
        .any(|entry| entry.1 == "inline; filename=\"x.png\""));
}

#[test]
fn capabilities_are_for_html_files() {
    let file = |position, renderer| PostFileRead {
        position,
        filename: "f".to_owned(),
        caption: None,
        media_type: "text/html".to_owned(),
        renderer,
        blob: BlobRead { hash: digits('a'), byte_size: 1 },
        support_assets: vec![],
    };
    let files = [file(0, ArtifactRenderer::Text), file(1, ArtifactRenderer::Html)];
    assert!(has_html_file(&files, 1));
    assert!(!has_html_file(&files, 0));
    assert!(!has_html_file(&files, 2));
}

// ---- live feeds ----

#[test]
fn events_reach_their_feeds() {
    let place = EventPlace { project_id: 3, session_public_id: "abc".to_owned() };
    assert!(event_matches(&FeedScope::Global, &place));
    assert!(event_matches(&FeedScope::Project(3), &place));
    assert!(!event_matches(&FeedScope::Project(4), &place));
    assert!(event_matches(&FeedScope::Session("abc".to_owned()), &place));
    assert!(!event_matches(&FeedScope::Session("abd".to_owned()), &place));
    let scope = FeedScope::Project(3);
    assert!(matches!(feed_action(&scope, &ChannelEvent::Event(place)), FeedAction::Send));
    let elsewhere = EventPlace { project_id: 4, session_public_id: "abc".to_owned() };
    assert!(matches!(feed_action(&scope, &ChannelEvent::Event(elsewhere)), FeedAction::Skip));
    assert!(matches!(feed_action(&scope, &ChannelEvent::Lagged), FeedAction::Reset));
    assert!(matches!(feed_action(&scope, &ChannelEvent::Closed), FeedAction::End));
}

#[test]
fn reconnecting_replays_a_bounded_tail() {
    assert_eq!(last_event_id(None).unwrap(), 0);
    assert_eq!(last_event_id(Some(b"12")).unwrap(), 12);
    for value in ["0", "-3", "x", ""] {
        assert_eq!(
            told(&last_event_id(Some(value.as_bytes())).unwrap_err()),
            (400, "malformed_last_event_id", "Last-Event-ID must be a positive integer")
        );
    }
    assert!(matches!(feed_start(100), FeedStart::Replay));
    assert!(matches!(feed_start(101), FeedStart::Reset));
}

#[test]
fn closings_heartbeats_and_clocks_are_judged() {
    let closed = LifecycleReport { sessions_deleted: 1, ..LifecycleReport::default() };
    assert!(announces_closing(&closed, true));
    assert!(!announces_closing(&closed, false));
    assert!(!announces_closing(&LifecycleReport::default(), true));
    assert!(check_heartbeat_body(0).is_ok());
    assert_eq!(
        told(&check_heartbeat_body(1).unwrap_err()),
        (400, "unexpected_request_body", "Heartbeat requests must not include a body")
    );
    assert_eq!(told(&malformed_query()), (400, "malformed_query", "Query parameters are malformed"));
    assert_eq!(daemon_unix_seconds(Some(5)).unwrap(), 5);
    assert_eq!(daemon_unix_seconds(None).unwrap_err().status, 500);
    assert_eq!(daemon_unix_seconds(Some(u64::MAX)).unwrap_err().status, 500);
}

// ---- manifests ----

fn manifest() -> PublicationManifest {
    PublicationManifest {
        integration_namespace: "pi".to_owned(),
        external_key: "one".to_owned(),
        project_label: "analysis".to_owned(),
        working_directory: "/work".to_owned(),
        title: "Title".to_owned(),
        commentary: "Comment".to_owned(),
        predecessor_post_id: Some(4),
        git: None,
        files: vec![ManifestFile {
            part: "file-0".to_owned(),
            filename: "a.html".to_owned(),
            caption: Some("A".to_owned()),
            media_type: None,
            support_assets: vec![ManifestSupportAsset {
                part: "asset-0-0".to_owned(),
                relative_path: "a.css".to_owned(),
            }],
        }],
    }
}

fn refused(change: impl Fn(&mut PublicationManifest)) -> ApiError {
    let mut changed = manifest();
    change(&mut changed);
    validate_manifest(&changed).unwrap_err()
}

#[test]
fn manifests_declare_each_part_once() {
    let mut declared = validate_manifest(&manifest()).unwrap();
    declared.sort();
    assert_eq!(declared, ["asset-0-0", "file-0"]);
    let blank = refused(|m| m.title = " \n".to_owned());
    assert_eq!(told(&blank), (422, "validation_failed", "A required field is blank"));
    assert_eq!(
        blank.body.error.details,
        [Detail { name: "field".to_owned(), value: DetailValue::Text("title".to_owned()) }]
    );
    assert_eq!(
        told(&refused(|m| m.git = Some(GitProvenance {
            root: String::new(),
            branch: None,
            commit: None,
        }))),
        (422, "validation_failed", "Git provenance is malformed")
    );
    assert_eq!(
        told(&refused(|m| m.files.clear())),
        (422, "validation_failed", "Publication requires at least one visible file")
    );
    assert_eq!(
        told(&refused(|m| m.files[0].part.clear())),
        (422, "invalid_part_name", "Declared part names must be nonempty")
    );
    assert_eq!(
        told(&refused(|m| m.files[0].support_assets[0].part = "file-0".to_owned())),
        (422, "duplicate_part", "Declared part names must be unique")
    );
    assert_eq!(
        told(&refused(|m| m.files[0].support_assets.push(ManifestSupportAsset {
            part: "other".to_owned(),
            relative_path: "a.css".to_owned(),
        }))),
        (422, "duplicate_support_path", "Support paths must be unique within a visible file")
    );
    let many = refused(|m| {
        for number in 0..255 {
            m.files[0].support_assets.push(ManifestSupportAsset {
                part: format!("p{number}"),
                relative_path: format!("r{number}"),
            });
        }
    });
    assert_eq!(
        told(&many),
        (422, "manifest_complexity_exceeded", "Publication declares more than 256 byte parts")
    );
}

#[test]
fn session_requests_have_no_blank_field() {
    let request = |label: &str| ResolveSessionRequest {
        integration_namespace: "pi".to_owned(),
        external_key: "one".to_owned(),
        project_label: label.to_owned(),
        working_directory: "/work".to_owned(),
    };
    assert!(validate_resolve_session(&request("x")).is_ok());
    let error = validate_resolve_session(&request("\t")).unwrap_err();
    assert_eq!(
        error.body.error.details[0].value,
        DetailValue::Text("project_label".to_owned())
    );
    assert!(validate_nonblank("x", "\u{3000}").is_err());
}

#[test]
fn the_manifest_comes_first_and_stays_small() {
    assert!(check_first_part(true, Some("manifest")).is_ok());
    for (there, name) in [(false, None), (true, None), (true, Some("file-0"))] {
        assert_eq!(
            told(&check_first_part(there, name).unwrap_err()),
            (400, "manifest_must_be_first", "The first multipart part must be manifest")
        );
    }
    let mut bytes = vec![b' '; 65_530];
    extend_manifest(&mut bytes, b"123456").unwrap();
    assert_eq!(bytes.len(), 65_536);
    assert_eq!(
        told(&extend_manifest(&mut bytes, b"7").unwrap_err()),
        (413, "manifest_too_large", "Publication manifest exceeds 64 KiB")
    );
    assert_eq!(bytes.len(), 65_536);
    assert_eq!(manifest_text(b"{}").unwrap(), "{}");
    assert_eq!(
        told(&manifest_text(&[0xff]).unwrap_err()),
        (400, "manifest_not_utf8", "Publication manifest must be UTF-8")
    );
    assert_eq!(
        told(&malformed_manifest()),
        (
            400,
            "malformed_manifest",
            "Publication manifest JSON is malformed or contains unknown fields"
        )
    );
    assert_eq!(
        told(&malformed_multipart()),
        (400, "malformed_multipart", "Multipart request is malformed")
    );
    assert_eq!(
        told(&interrupted_multipart()),
        (400, "multipart_stream_error", "Multipart request stream was interrupted")
    );
}

fn staged(digit: char) -> StagedPublicationBlob {
    StagedPublicationBlob {
        root: b"/store".to_vec(),
        record: BlobRecord::from_parts(BlobHash::parse(&digits(digit)).unwrap(), 3),
    }
}

#[test]
fn parts_arrive_once_and_completely() {
    let mut ledger = PartLedger::open(validate_manifest(&manifest()).unwrap());
    assert_eq!(
        told(&ledger.check_part(None).unwrap_err()),
        (422, "invalid_part_name", "Every artifact part must have a nonempty name")
    );
    assert_eq!(
        told(&ledger.check_part(Some("manifest")).unwrap_err()),
        (422, "duplicate_manifest", "The manifest part may appear only once")
    );
    assert_eq!(
        told(&ledger.check_part(Some("other")).unwrap_err()),
        (422, "unexpected_part", "Multipart request contains an undeclared part")
    );
    assert_eq!(
        told(&ledger.check_complete().unwrap_err()),
        (422, "missing_part", "One or more declared artifact parts are missing")
    );
    ledger.check_part(Some("asset-0-0")).unwrap();
    ledger.stage("asset-0-0");
    assert_eq!(
        told(&ledger.check_part(Some("asset-0-0")).unwrap_err()),
        (422, "duplicate_part", "A declared artifact part appeared more than once")
    );
    ledger.stage("file-0");
    ledger.check_complete().unwrap();
    let request =
        assemble_request(&manifest(), &ledger, &[staged('a'), staged('b')], "sess11").unwrap();
    assert_eq!(request.session_public_id, "sess11");
    assert_eq!(request.predecessor_post_id, Some(4));
    assert_eq!(request.files.len(), 1);
    assert_eq!(request.files[0].filename, "a.html");
    assert_eq!(request.files[0].caption.as_deref(), Some("A"));
    assert_eq!(request.files[0].blob.record.hash().as_str(), digits('b'));
    assert_eq!(request.files[0].support_assets[0].relative_path, "a.css");
    assert_eq!(request.files[0].support_assets[0].blob.record.hash().as_str(), digits('a'));
}

// ---- errors ----

#[test]
fn store_errors_become_answers() {
    let answer = |error: StoreError| {
        let answer = ApiError::from_store_error(&error);
        (answer.status, answer.body.error.code)
    };
    let is = |error: StoreError, status: u16, code: &str| {
        assert_eq!(answer(error), (status, code.to_owned()))
    };
    is(StoreError::SessionNotFound { public_id: "x".to_owned() }, 404, "session_not_found");
    is(StoreError::ProjectNotFound { project_id: 1 }, 404, "project_not_found");
    is(StoreError::PostNotFound { post_id: 1 }, 404, "post_not_found");
    is(StoreError::PredecessorNotFound { post_id: 1 }, 404, "post_not_found");
    is(StoreError::InvalidPageLimit { limit: 0, maximum: 100 }, 400, "invalid_page_limit");
    is(StoreError::InvalidPageCursor, 400, "invalid_page_cursor");
    is(StoreError::UploadLimitExceeded { limit: 1, attempted: 2 }, 413, "upload_limit_exceeded");
    is(
        StoreError::GlobalBlobBudgetExceeded { limit: 1, current: 1, additional: 1 },
        507,
        "storage_limit_exceeded",
    );
    is(StoreError::ArtifactNotFound, 404, "artifact_not_found");
    is(StoreError::ArtifactClassificationFailed, 422, "artifact_classification_failed");
    is(StoreError::BlankPublicationTitle, 422, "validation_failed");
    is(StoreError::BlankPublicationCommentary, 422, "validation_failed");
    is(StoreError::PublicationRequiresFile, 422, "validation_failed");
    is(StoreError::InvalidGitProvenance, 422, "validation_failed");
    is(
        StoreError::DuplicateSupportPath { relative_path: "a".to_owned() },
        422,
        "validation_failed",
    );
    is(StoreError::InvalidSupportPath { relative_path: "a".to_owned() }, 422, "validation_failed");
    is(StoreError::CrossSessionPredecessor { post_id: 1 }, 409, "revision_conflict");
    let hash = BlobHash::parse(&digits('a')).unwrap();
    is(
        StoreError::Integrity(BlobIntegrityError::Missing { hash }),
        500,
        "storage_integrity_error",
    );
    is(StoreError::InvalidPostMetadata, 500, "storage_integrity_error");
    is(StoreError::Io("x".to_owned()), 500, "storage_io_error");
    is(
        StoreError::Sqlite { constraint: true, message: "x".to_owned() },
        409,
        "storage_constraint_conflict",
    );
    is(
        StoreError::Sqlite { constraint: false, message: "x".to_owned() },
        500,
        "database_error",
    );
    is(StoreError::PublicIdExhausted, 500, "internal_error");
    let budget = ApiError::from_store_error(&StoreError::GlobalBlobBudgetExceeded {
        limit: 1,
        current: 2,
        additional: 3,
    });
    let names: Vec<&str> =
        budget.body.error.details.iter().map(|detail| detail.name.as_str()).collect();
    assert_eq!(names, ["limit", "current", "additional"]);
    assert_eq!(budget.body.error.details[2].value, DetailValue::Unsigned(3));
    assert_eq!(
        told(&ApiError::unavailable()),
        (503, "storage_unavailable", "Persistent storage is not configured")
    );
    assert_eq!(
        told(&ApiError::malformed_json()),
        (400, "malformed_json", "JSON request body is malformed or contains unknown fields")
    );
}

#[test]
fn peers_are_listed_exactly() {
    let one = IpAddress::V4 { bits: 0x7f00_0001 };
    let two = IpAddress::V4 { bits: 0x7f00_0002 };
    assert!(lists_peer(&[two, one], one));
    assert!(!lists_peer(&[two], one));
    assert!(!lists_peer(&[], one));
}

#[test]
fn routes_are_listed_with_their_methods() {
    let routes = api_v1_routes();
    assert_eq!(routes.len(), 20);
    assert_eq!(routes[0], ("GET", "/api/v1/health"));
    assert!(routes.contains(&("DELETE", "/api/v1/sessions/{public_id}")));
    assert!(routes.iter().all(|(_, path)| is_v1_path(path)));
}

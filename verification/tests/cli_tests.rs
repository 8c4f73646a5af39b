use glim::cli::address::{
    check_daemon_url, daemon_url, open_url, open_url_with, post_url, read_url, viewer_url, UrlParts,
};
use glim::cli::arguments::{list_path, positive_integer, session_public_id, Command};
use glim::cli::browser::{
    browser_command, launch_result, report_launch, BrowserEnd, BrowserLaunch,
};
use glim::cli::error::{daemon_error, publication_may_have_succeeded, CliError};
use glim::cli::flags::{
    accept_commentary, check_schema_version, check_stdin_size, commentary_source,
    flag_publication, parse_flags, parse_publish, CommentarySource, FlagValue, PublicationInput,
    PublicationSource, PublishSource,
};
use glim::cli::git::{assemble_provenance, check_root, git_output, GitEnd, GitQuestion};
use glim::cli::publication::{
    check_input, check_manifest_size, OpenAnswer, Preparation, PrepareAnswer, PrepareStep,
};
use glim::cli::sending::{
    check_response_length, conclude_publication, daemon_unavailable, extend_response,
    judge_status, malformed_response, token_unavailable, FailureBody, PublicationReply,
};
use glim::api::manifest::validate_manifest;
use glim::details::{Detail, DetailValue};
use glim::storage::read::GitProvenance;

fn words(values: &[&str]) -> Vec<String> {
    values.iter().map(|value| value.to_string()).collect()
}

fn told(error: &CliError) -> (&str, &str) {
    (&error.code, &error.message)
}

// ---- arguments ----

fn command(values: &[&str]) -> Command {
    Command::parse(&words(values)).unwrap()
}

fn usage(values: &[&str]) -> String {
    let error = Command::parse(&words(values)).unwrap_err();
    assert_eq!(error.code, "usage_error");
    error.message
}

#[test]
fn commands_are_told_apart() {
    assert_eq!(command(&["status"]), Command::Status);
    assert_eq!(command(&["health"]), Command::Get("/api/v1/health".to_owned()));
    assert_eq!(command(&["show", "12"]), Command::Get("/api/v1/posts/12".to_owned()));
    assert_eq!(command(&["show", "+12"]), Command::Get("/api/v1/posts/12".to_owned()));
    assert_eq!(command(&["close", "abc1"]), Command::Delete("/api/v1/sessions/abc1".to_owned()));
    assert_eq!(command(&["open", "abc1"]), Command::Open("abc1".to_owned()));
    assert_eq!(command(&["publish", "--json"]), Command::Publish(words(&["--json"])));
    assert_eq!(command(&["service", "start"]), Command::Service(words(&["start"])));
    assert_eq!(command(&["list", "--global"]), Command::Get("/api/v1/posts".to_owned()));
    assert_eq!(usage(&[]), "missing command");
    assert_eq!(usage(&["dance"]), "unknown command: dance");
    assert_eq!(usage(&["status", "x"]), "command does not accept arguments");
    assert_eq!(usage(&["show"]), "show requires one post ID");
    assert_eq!(usage(&["show", "0"]), "post ID must be a positive integer");
    assert_eq!(usage(&["close"]), "close requires one public session ID");
    assert_eq!(usage(&["close", "a/b"]), "public session ID must be ASCII alphanumeric");
    assert_eq!(usage(&["open", "a", "b"]), "open requires one public session ID or session URL");
}

#[test]
fn list_addresses_name_one_scope() {
    let listed = |values: &[&str]| list_path(&words(values)).unwrap();
    let refused = |values: &[&str]| list_path(&words(values)).unwrap_err().message;
    assert_eq!(listed(&["--session", "abc"]), "/api/v1/sessions/abc/posts");
    assert_eq!(
        listed(&["--project", "3", "--limit", "20", "--cursor", "v1:2:-3"]),
        "/api/v1/projects/3/posts?limit=20&cursor=v1%3A2%3A%2D3"
    );
    assert_eq!(listed(&["--cursor", "\u{e9}", "--global"]), "/api/v1/posts?cursor=%C3%A9");
    assert_eq!(listed(&["--limit", "+7", "--global"]), "/api/v1/posts?limit=+7");
    assert_eq!(refused(&[]), "list requires --session, --project, or --global");
    assert_eq!(refused(&["--global", "--global"]), "list requires exactly one scope");
    assert_eq!(refused(&["--global", "--session", "a"]), "list requires exactly one scope");
    assert_eq!(refused(&["--session"]), "--session requires a value");
    assert_eq!(refused(&["--project", "x"]), "project ID must be a positive integer");
    assert_eq!(refused(&["--limit", "0"]), "limit must be a positive integer");
    assert_eq!(refused(&["--limit", "101"]), "limit must be in 1..=100");
    assert_eq!(
        refused(&["--limit", "1", "--limit", "1"]),
        "duplicate list option: --limit"
    );
    assert_eq!(
        refused(&["--cursor", "1", "--cursor", "1"]),
        "duplicate list option: --cursor"
    );
    assert_eq!(refused(&["--all"]), "unknown list option: --all");
}

#[test]
fn identifiers_are_checked() {
    assert!(session_public_id("aZ9").is_ok());
    assert!(session_public_id("").is_err());
    assert!(session_public_id("a-b").is_err());
    assert_eq!(positive_integer("9223372036854775807", "n").unwrap(), i64::MAX);
    assert_eq!(
        positive_integer("-1", "n").unwrap_err().message,
        "n must be a positive integer"
    );
}

// ---- addresses ----

#[test]
fn daemon_addresses_are_origins() {
    assert_eq!(daemon_url(None).unwrap(), "http://127.0.0.1:3030");
    assert_eq!(daemon_url(Some("https://glim.example:8443/")).unwrap(), "https://glim.example:8443");
    let refused = |value: &str| daemon_url(Some(value)).unwrap_err().message;
    assert_eq!(refused("::"), "GLIM_DAEMON_URL is not a valid URL");
    assert_eq!(refused("ftp://glim.example"), "GLIM_DAEMON_URL must use HTTP or HTTPS");
    for value in [
        "http://user@glim.example",
        "http://:pw@glim.example",
        "http://glim.example/path",
        "http://glim.example/?q",
        "http://glim.example/#f",
    ] {
        assert_eq!(refused(value), "GLIM_DAEMON_URL must contain only an HTTP origin");
    }
}

fn parts(scheme: &str, host: Option<&str>) -> Option<UrlParts> {
    Some(UrlParts {
        scheme: scheme.to_owned(),
        username: String::new(),
        password: None,
        host: host.map(str::to_owned),
        path: "/".to_owned(),
        query: None,
        fragment: None,
    })
}

#[test]
fn given_url_parts_decide() {
    assert_eq!(read_url("http://Glim.Example/"), parts("http", Some("glim.example")));
    assert_eq!(check_daemon_url("http://a//", &parts("http", Some("a"))).unwrap(), "http://a");
    assert!(check_daemon_url("http://a", &parts("http", None)).is_err());
    assert!(check_daemon_url("x", &None).is_err());
    let base = || Ok("http://127.0.0.1:3030".to_owned());
    assert_eq!(
        open_url_with("https://a/s", &parts("https", Some("a")), base()).unwrap(),
        "https://a/s"
    );
    assert_eq!(
        told(&open_url_with("https://", &None, base()).unwrap_err()),
        ("usage_error", "session URL is invalid")
    );
    assert_eq!(
        open_url_with("abc", &None, base()).unwrap(),
        "http://127.0.0.1:3030/sessions/abc"
    );
}

#[test]
fn sessions_and_posts_have_addresses() {
    assert_eq!(open_url("abc", Some("http://a:1")).unwrap(), "http://a:1/sessions/abc");
    assert_eq!(open_url("http://b/x?y#z", None).unwrap(), "http://b/x?y#z");
    assert!(open_url("http://", None).is_err());
    assert!(open_url("a/b", None).is_err());
    assert_eq!(viewer_url("http://a", "s"), "http://a/sessions/s");
    assert_eq!(post_url("http://a", "s", 4), "http://a/sessions/s#post-4");
}

// ---- flags ----

#[test]
fn flags_are_given_once_with_a_value() {
    let flags = parse_flags(&words(&["--open", "--title", "T", "--file", "--open"])).unwrap();
    assert_eq!(
        flags,
        [
            FlagValue { flag: "--title".to_owned(), value: "T".to_owned() },
            FlagValue { flag: "--file".to_owned(), value: "--open".to_owned() },
        ]
    );
    let refused = |values: &[&str]| parse_flags(&words(values)).unwrap_err().message;
    assert_eq!(refused(&["--nope", "x"]), "unknown publish option: --nope");
    assert_eq!(refused(&["--title"]), "--title requires a value");
    assert_eq!(refused(&["--title", "a", "--title", "b"]), "duplicate option: --title");
}

fn given() -> Vec<String> {
    words(&[
        "--file",
        "plot.png",
        "--integration",
        "pi",
        "--external-key",
        "session-1",
        "--project",
        "analysis",
        "--working-directory",
        "/work",
        "--title",
        "Population response",
        "--commentary-file",
        "commentary.md",
        "--caption",
        "Mean response",
        "--predecessor",
        "3",
    ])
}

#[test]
fn one_file_is_published_by_flags() {
    let arguments = parse_publish(&given()).unwrap();
    assert!(!arguments.open);
    let flags = match arguments.source {
        PublishSource::Flags(flags) => flags,
        PublishSource::Json => panic!("flags were given"),
    };
    assert_eq!(
        commentary_source(&flags).unwrap(),
        CommentarySource::File("commentary.md".to_owned())
    );
    let input = flag_publication(&flags, "text".to_owned()).unwrap();
    assert_eq!(
        input,
        PublicationInput {
            integration_namespace: "pi".to_owned(),
            external_key: "session-1".to_owned(),
            project_label: "analysis".to_owned(),
            working_directory: "/work".to_owned(),
            title: "Population response".to_owned(),
            commentary: "text".to_owned(),
            predecessor_post_id: Some(3),
            files: vec![PublicationSource {
                source_path: "plot.png".to_owned(),
                published_filename: None,
                caption: Some("Mean response".to_owned()),
                media_type: None,
                collect_assets: true,
            }],
        }
    );
    let short = parse_flags(&given()[2..]).unwrap();
    assert_eq!(
        flag_publication(&short, String::new()).unwrap_err().message,
        "missing required option: --file"
    );
    let none = parse_flags(&[]).unwrap();
    assert_eq!(
        commentary_source(&none).unwrap_err().message,
        "missing required option: --commentary-file"
    );
    assert_eq!(
        parse_flags(&words(&["--commentary", "a", "--commentary-file", "b"])).unwrap_err().message,
        "use either --commentary or --commentary-file"
    );
    let text = parse_flags(&words(&["--commentary", "a"])).unwrap();
    assert_eq!(commentary_source(&text).unwrap(), CommentarySource::Text("a".to_owned()));
}

#[test]
fn json_publication_takes_no_flags() {
    let json = parse_publish(&words(&["--json", "--open"])).unwrap();
    assert!(json.open);
    assert_eq!(json.source, PublishSource::Json);
    assert_eq!(
        parse_publish(&words(&["--json", "--title"])).unwrap_err().message,
        "publish --json accepts only --open"
    );
    assert!(check_stdin_size(1_048_576).is_ok());
    assert_eq!(
        told(&check_stdin_size(1_048_577).unwrap_err()),
        ("stdin_too_large", "publication JSON exceeds 1 MiB")
    );
    assert!(check_schema_version(None).is_ok());
    assert!(check_schema_version(Some(1)).is_ok());
    assert_eq!(
        told(&check_schema_version(Some(2)).unwrap_err()),
        ("unsupported_schema_version", "unsupported publication schema version: 2")
    );
}

#[test]
fn commentaries_are_small_utf8() {
    assert_eq!(accept_commentary("\u{e9}".as_bytes()).unwrap(), "\u{e9}");
    assert_eq!(
        told(&accept_commentary(&vec![b'a'; 65_537]).unwrap_err()),
        ("validation_error", "commentary file exceeds 64 KiB")
    );
    assert_eq!(
        told(&accept_commentary(&[0xff]).unwrap_err()),
        ("validation_error", "commentary file must be UTF-8")
    );
}

// ---- preparation ----

fn source(path: &str) -> PublicationSource {
    PublicationSource {
        source_path: path.to_owned(),
        published_filename: None,
        caption: None,
        media_type: None,
        collect_assets: true,
    }
}

fn input(files: Vec<PublicationSource>) -> PublicationInput {
    PublicationInput {
        integration_namespace: "pi".to_owned(),
        external_key: "one".to_owned(),
        project_label: "analysis".to_owned(),
        working_directory: "work".to_owned(),
        title: "Title".to_owned(),
        commentary: "Comment".to_owned(),
        predecessor_post_id: None,
        files,
    }
}

#[test]
fn inputs_are_checked_before_files_are_touched() {
    assert!(check_input(&input(vec![source("a")])).is_ok());
    let refused = |change: &dyn Fn(&mut PublicationInput)| {
        let mut changed = input(vec![source("a")]);
        change(&mut changed);
        let error = check_input(&changed).unwrap_err();
        assert_eq!(error.code, "validation_error");
        error.message
    };
    assert_eq!(refused(&|i| i.external_key = " ".to_owned()), "external_session_key must not be blank");
    assert_eq!(refused(&|i| i.commentary = "\n".to_owned()), "commentary must not be blank");
    assert_eq!(refused(&|i| i.files.clear()), "publication requires at least one file");
    assert_eq!(
        refused(&|i| i.predecessor_post_id = Some(0)),
        "predecessor_post_id must be positive"
    );
}

fn directory() -> PrepareAnswer {
    PrepareAnswer::Directory(Ok((b"/work".to_vec(), true)))
}

fn opened(byte_size: u64) -> PrepareAnswer {
    PrepareAnswer::Opened(OpenAnswer::Opened { regular: true, byte_size })
}

fn failure(preparation: &Preparation) -> (&str, &str) {
    match preparation.step() {
        PrepareStep::Failed(error) => told(error),
        _ => panic!("the preparation failed"),
    }
}

#[test]
fn a_publication_is_prepared_file_by_file() {
    let mut second = source("b.png");
    second.collect_assets = false;
    second.published_filename = Some("shown.png".to_owned());
    let run = Preparation::start(input(vec![source("a.html"), second]));
    assert_eq!(run.step(), &PrepareStep::ResolveDirectory);
    assert_eq!(run.working_directory(), "work");
    let run = run.advance(directory());
    assert_eq!(run.step(), &PrepareStep::ResolveSource);
    assert_eq!(run.source_path(), Some("a.html"));
    let run = run.advance(PrepareAnswer::Source(Ok(b"/work/a.html".to_vec())));
    assert_eq!(run.step(), &PrepareStep::OpenSource);
    let run = run.advance(opened(10));
    assert_eq!(run.step(), &PrepareStep::CollectAssets);
    let run = run.advance(PrepareAnswer::Assets(Ok(words(&["a.css", "a.png"]))));
    assert_eq!(run.step(), &PrepareStep::ResolveSource);
    assert_eq!(run.source_path(), Some("b.png"));
    let run = run.advance(PrepareAnswer::Source(Ok(b"/work/b.png".to_vec()))).advance(opened(20));
    assert_eq!(run.step(), &PrepareStep::CollectGit);
    assert!(run.manifest().is_none());
    let git = GitProvenance { root: "/work".to_owned(), branch: None, commit: None };
    let run = run.advance(PrepareAnswer::Git(Ok(Some(git))));
    assert_eq!(run.step(), &PrepareStep::Ready);
    assert_eq!(run.sizes(), [10, 20]);
    let manifest = run.manifest().unwrap();
    assert_eq!(manifest.working_directory, "/work");
    assert_eq!(manifest.files[0].part, "file-0");
    assert_eq!(manifest.files[0].filename, "a.html");
    assert_eq!(manifest.files[0].support_assets[1].part, "asset-0-1");
    assert_eq!(manifest.files[0].support_assets[1].relative_path, "a.png");
    assert_eq!(manifest.files[1].filename, "shown.png");
    assert_eq!(validate_manifest(&manifest).unwrap().len(), 4);
}

#[test]
fn preparations_fail_on_the_first_fault() {
    let fresh = || Preparation::start(input(vec![source("a.html"), source("b.html")]));
    let blank = Preparation::start(input(vec![]));
    assert_eq!(failure(&blank), ("validation_error", "publication requires at least one file"));
    let run = fresh().advance(PrepareAnswer::Directory(Err("gone".to_owned())));
    assert_eq!(failure(&run), ("filesystem_error", "could not resolve working directory: gone"));
    let run = fresh().advance(PrepareAnswer::Directory(Ok((b"/work".to_vec(), false))));
    assert_eq!(failure(&run), ("filesystem_error", "working directory is not a directory"));
    let ready = || fresh().advance(directory());
    let run = ready().advance(PrepareAnswer::Source(Err("gone".to_owned())));
    assert_eq!(failure(&run), ("filesystem_error", "could not resolve source file: gone"));
    let found = || ready().advance(PrepareAnswer::Source(Ok(b"/work/a.html".to_vec())));
    let run = found().advance(PrepareAnswer::Opened(OpenAnswer::NotOpened("no".to_owned())));
    assert_eq!(failure(&run), ("filesystem_error", "could not open source file: no"));
    let run = found().advance(PrepareAnswer::Opened(OpenAnswer::NotInspected("no".to_owned())));
    assert_eq!(failure(&run), ("filesystem_error", "could not inspect opened source file: no"));
    let run = found().advance(PrepareAnswer::Opened(OpenAnswer::Opened {
        regular: false,
        byte_size: 1,
    }));
    assert_eq!(failure(&run), ("filesystem_error", "source path is not a regular file"));
    let run = found().advance(opened(1)).advance(PrepareAnswer::Assets(Err("bad".to_owned())));
    assert_eq!(failure(&run), ("asset_collection_error", "bad"));
    let many: Vec<String> = (0..256).map(|number| format!("{number}.png")).collect();
    let run = found().advance(opened(1)).advance(PrepareAnswer::Assets(Ok(many)));
    assert_eq!(
        failure(&run),
        ("asset_collection_error", "publication exceeds 256 total byte parts")
    );
    let run = found()
        .advance(opened(1))
        .advance(PrepareAnswer::Assets(Ok(vec![])))
        .advance(PrepareAnswer::Source(Ok(b"/work/a.html".to_vec())));
    assert_eq!(failure(&run), ("validation_error", "duplicate source file"));
    let mut named = source("a");
    named.published_filename = Some("a/b".to_owned());
    let run = Preparation::start(input(vec![named]))
        .advance(directory())
        .advance(PrepareAnswer::Source(Ok(b"/work/a".to_vec())))
        .advance(opened(1));
    assert_eq!(failure(&run), ("validation_error", "published filename is invalid"));
    let mut typed = source("a");
    typed.media_type = Some(" ".to_owned());
    let run = Preparation::start(input(vec![typed]))
        .advance(directory())
        .advance(PrepareAnswer::Source(Ok(b"/work/a".to_vec())))
        .advance(opened(1));
    assert_eq!(failure(&run), ("validation_error", "media_type must not be blank"));
}

#[test]
fn working_directories_must_be_utf8() {
    let mut only = source("a");
    only.collect_assets = false;
    let run = Preparation::start(input(vec![only]))
        .advance(PrepareAnswer::Directory(Ok((vec![b'/', 0xff], true))))
        .advance(PrepareAnswer::Source(Ok(b"/work/a".to_vec())))
        .advance(opened(1))
        .advance(PrepareAnswer::Git(Ok(None)));
    assert_eq!(
        failure(&run),
        ("validation_error", "canonical working directory must be valid UTF-8")
    );
    assert!(check_manifest_size(65_536).is_ok());
    assert_eq!(
        told(&check_manifest_size(65_537).unwrap_err()),
        ("schema_error", "publication manifest exceeds 64 KiB")
    );
}

// ---- git ----

#[test]
fn git_is_asked_three_questions() {
    assert_eq!(GitQuestion::Root.words(), ["rev-parse", "--show-toplevel"]);
    assert_eq!(GitQuestion::Branch.words(), ["symbolic-ref", "--quiet", "--short", "HEAD"]);
    assert_eq!(GitQuestion::Commit.words(), ["rev-parse", "--verify", "HEAD"]);
    let ended = |success, output: &[u8]| {
        git_output(GitEnd::Finished { success, output: output.to_vec() })
    };
    assert_eq!(ended(true, b"/work\r\n\n").unwrap().as_deref(), Some("/work"));
    assert_eq!(ended(false, b"/work").unwrap(), None);
    assert_eq!(ended(true, &[b'a'; 8193]).unwrap_err().message, "Git output exceeds 8 KiB");
    assert_eq!(ended(true, &[0xff]).unwrap_err().message, "Git output is not UTF-8");
    let message = |end| {
        let error = git_output(end).unwrap_err();
        assert_eq!(error.code, "git_error");
        error.message
    };
    assert_eq!(message(GitEnd::NotStarted("e".to_owned())), "could not execute Git: e");
    assert_eq!(message(GitEnd::NotWaitedFor("e".to_owned())), "could not wait for Git: e");
    assert_eq!(message(GitEnd::NotRead("e".to_owned())), "could not read Git output: e");
    assert_eq!(message(GitEnd::TimedOut), "Git command timed out");
}

#[test]
fn provenance_is_bounded_and_valid() {
    assert!(check_root("/work").is_ok());
    assert_eq!(
        check_root(&"a".repeat(4097)).unwrap_err().message,
        "Git root exceeds the supported length"
    );
    let commit = "a".repeat(40);
    let found = assemble_provenance(
        "/work".to_owned(),
        Some("main".to_owned()),
        Some(commit.clone()),
    )
    .unwrap();
    assert_eq!(found.commit.as_deref(), Some(commit.as_str()));
    assert_eq!(
        assemble_provenance("/work".to_owned(), Some("b".repeat(1025)), None)
            .unwrap_err()
            .message,
        "Git provenance exceeds the supported length"
    );
    assert_eq!(
        assemble_provenance("/work".to_owned(), Some(String::new()), None).unwrap_err().message,
        "Git returned invalid provenance"
    );
}

// ---- sending ----

fn no_body() -> FailureBody {
    FailureBody { code: None, message: None, details: vec![] }
}

fn reply() -> PublicationReply {
    PublicationReply {
        session_public_id: "111111".to_owned(),
        post_id: 7,
        post_session_public_id: "111111".to_owned(),
        is_object: true,
    }
}

#[test]
fn responses_are_bounded() {
    assert!(check_response_length(None).is_ok());
    assert!(check_response_length(Some(1_048_576)).is_ok());
    assert_eq!(
        told(&check_response_length(Some(1_048_577)).unwrap_err()),
        ("daemon_response_too_large", "daemon response exceeds 1 MiB")
    );
    let mut response = vec![0u8; 1_048_575];
    extend_response(&mut response, b"a").unwrap();
    assert!(extend_response(&mut response, b"b").is_err());
    assert_eq!(response.len(), 1_048_576);
    assert_eq!(
        told(&malformed_response()),
        ("malformed_daemon_response", "daemon response is not valid JSON")
    );
    assert_eq!(
        told(&daemon_unavailable("x")),
        ("daemon_unavailable", "could not reach daemon: x")
    );
    assert_eq!(
        told(&token_unavailable("x")),
        ("configuration_error", "could not resolve daemon access token: x")
    );
}

#[test]
fn refusals_are_passed_on() {
    assert!(judge_status(204, no_body()).is_ok());
    let error = judge_status(404, no_body()).unwrap_err();
    assert_eq!(told(&error), ("daemon_rejected", "daemon rejected the request"));
    assert_eq!(
        error.details,
        [Detail { name: "http_status".to_owned(), value: DetailValue::Unsigned(404) }]
    );
    let detailed = daemon_error(
        409,
        Some("c"),
        Some("m"),
        vec![Detail { name: "http_status".to_owned(), value: DetailValue::Flag(false) }],
    );
    assert_eq!(told(&detailed), ("c", "m"));
    assert_eq!(detailed.details.len(), 1);
    assert_eq!(detailed.details[0].value, DetailValue::Unsigned(409));
    let doubted = publication_may_have_succeeded(CliError::usage("x"));
    assert_eq!(
        doubted.details,
        [Detail {
            name: "publication_may_have_succeeded".to_owned(),
            value: DetailValue::Flag(true),
        }]
    );
}

#[test]
fn publications_end_with_their_addresses() {
    let links = conclude_publication("http://a", 201, no_body(), Some(reply())).unwrap();
    assert_eq!(links.viewer_url, "http://a/sessions/111111");
    assert_eq!(links.post_url, "http://a/sessions/111111#post-7");
    let refused = |status, reply| {
        let error = conclude_publication("http://a", status, no_body(), reply).unwrap_err();
        (error.message, error.details.iter().any(|d| d.name == "publication_may_have_succeeded"))
    };
    assert_eq!(refused(422, None), ("daemon rejected the request".to_owned(), false));
    assert_eq!(
        refused(201, None),
        (
            "publication response is missing required session or post structure".to_owned(),
            true
        )
    );
    let mut bad = reply();
    bad.session_public_id = "11111".to_owned();
    assert_eq!(
        refused(201, Some(bad)).0,
        "publication response contains an invalid session.public_id"
    );
    let mut bad = reply();
    bad.post_id = 0;
    assert_eq!(refused(201, Some(bad)).0, "publication response contains a non-positive post.id");
    let mut bad = reply();
    bad.post_session_public_id = "222222".to_owned();
    assert_eq!(
        refused(201, Some(bad)).0,
        "publication response post.session_public_id does not match session.public_id"
    );
    let mut bad = reply();
    bad.is_object = false;
    assert_eq!(refused(201, Some(bad)).0, "publication response must be an object");
}

// ---- browser ----

#[test]
fn browsers_are_launched_once() {
    assert_eq!(browser_command(Some("firefox"), false), "firefox");
    assert_eq!(browser_command(None, true), "open");
    assert_eq!(browser_command(None, false), "xdg-open");
    assert!(launch_result(BrowserEnd::Running).is_ok());
    let message = |end| {
        let error = launch_result(end).unwrap_err();
        assert_eq!(error.code, "browser_launch_failed");
        error.message
    };
    assert_eq!(message(BrowserEnd::NotStarted("e".to_owned())), "could not launch browser: e");
    assert_eq!(message(BrowserEnd::NotWaitedFor("e".to_owned())), "could not wait for browser: e");
    assert_eq!(
        message(BrowserEnd::Exited { success: false, status: "exit status: 3".to_owned() }),
        "browser command exited with exit status: 3"
    );
    assert_eq!(
        report_launch(None),
        BrowserLaunch { requested: false, opened: false, error: None }
    );
    assert_eq!(
        report_launch(Some(BrowserEnd::Exited { success: true, status: String::new() })),
        BrowserLaunch { requested: true, opened: true, error: None }
    );
    let failed = report_launch(Some(BrowserEnd::NotStarted("e".to_owned())));
    assert!(failed.requested && !failed.opened && failed.error.is_some());
}

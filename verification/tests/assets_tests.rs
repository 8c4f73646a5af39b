use glim::cli::assets::collection::{
    ensure_supported_dependency, entry_kind, entry_references, AssetCollection, AssetState,
    CollectAnswer, CollectStep, EntryKind,
};
use glim::cli::assets::css::{css_references, css_references_from, read_css, CssToken, CssValue};
use glim::cli::assets::html::{html_references, html_references_from, read_html, HtmlElement};
use glim::cli::assets::markdown::{
    markdown_references, markdown_references_from, read_markdown, MarkdownEvent, MarkdownItem,
};
use glim::cli::assets::reference::normalize_local_reference_from;

fn words(values: &[&str]) -> Vec<String> {
    values.iter().map(|value| value.to_string()).collect()
}

fn local(reference: &str, base: &str) -> Option<String> {
    normalize_local_reference_from(reference, base).unwrap()
}

fn refused(reference: &str) -> String {
    normalize_local_reference_from(reference, "").unwrap_err()
}

#[test]
fn local_references_are_normalized() {
    assert_eq!(local(" a/./b.png?x#y ", "").as_deref(), Some("a/b.png"));
    assert_eq!(local("../b.png", "css/fonts").as_deref(), Some("css/b.png"));
    assert_eq!(local("a%20b.png", "").as_deref(), Some("a b.png"));
    assert_eq!(local("%C3%A9.png", "").as_deref(), Some("\u{e9}.png"));
    assert_eq!(local("a//b.png/", "").as_deref(), Some("a/b.png"));
    assert_eq!(local("1:2.png", "").as_deref(), Some("1:2.png"));
    for reference in ["", "  ", "#top", "//host/a.png", "https://a/b", "data:x", "blob:x"] {
        assert_eq!(local(reference, ""), None);
    }
}

#[test]
fn escaping_references_are_refused() {
    for reference in ["file:///a", "FILE:a", "c:\\a", "c:a"] {
        assert_eq!(refused(reference), "absolute filesystem support references are not allowed");
    }
    for reference in ["a%2Fb", "a%5cb"] {
        assert_eq!(
            refused(reference),
            "encoded path separators are not allowed in support references"
        );
    }
    assert_eq!(refused("%ff.png"), "support reference has malformed UTF-8 percent encoding");
    assert_eq!(refused("a%2.png"), "support reference has malformed percent encoding");
    for reference in ["/a.png", "a\\b.png", "\\a"] {
        assert_eq!(refused(reference), "absolute or backslash support paths are not allowed");
    }
    assert_eq!(refused("a%07.png"), "support path contains an invalid segment");
    assert_eq!(refused("../a.png"), "support path traversal escapes the entry directory");
    assert_eq!(refused("a/../../b"), "support path traversal escapes the entry directory");
    assert_eq!(refused("a/.."), "support path is empty");
    assert_eq!(refused("?x"), "support path is empty");
}

#[test]
fn html_resources_are_found() {
    let source = "<p><img src='a.png' srcset='b.png 1x, c.png 2x ,, '>\
        <video src=v.mp4 poster=p.png></video><a href='no.html'></a>\
        <link rel='Preload STYLESHEET' href='s.css'><link rel=author href=x>\
        <img src=d.png srcset=' DATA:x 1x, y 2x'></p>";
    assert_eq!(
        html_references(source).unwrap(),
        ["a.png", "b.png", "c.png", "v.mp4", "p.png", "s.css", "d.png"]
    );
    let elements = read_html("<script src=x.js></script>").unwrap();
    assert!(elements.iter().any(|e| e.name == "script" && e.src.as_deref() == Some("x.js")));
}

fn element(name: &str, src: Option<&str>) -> HtmlElement {
    HtmlElement {
        name: name.to_owned(),
        src: src.map(str::to_owned),
        poster: Some("p".to_owned()),
        srcset: None,
        rel: None,
        href: None,
    }
}

#[test]
fn given_elements_are_read_in_order() {
    let elements = Some(vec![
        element("a", Some("x")),
        element("iframe", Some("y")),
        element("video", None),
    ]);
    assert_eq!(html_references_from(&elements).unwrap(), ["y", "p"]);
    assert_eq!(html_references_from(&None).unwrap_err(), "could not initialize HTML parser");
    let many = Some((0..513).map(|_| element("img", Some("x"))).collect());
    assert_eq!(
        html_references_from(&many).unwrap_err(),
        "entry document exceeds the support-reference limit"
    );
    let enough = Some((0..512).map(|_| element("img", Some("x"))).collect());
    assert_eq!(html_references_from(&enough).unwrap().len(), 512);
}

#[test]
fn markdown_images_are_found() {
    let source = "# T\n\n![a](a.png) and [b](b.png)\n\n<img src='c.png'>\n\ninline <img src=d.png>";
    assert_eq!(markdown_references(source).unwrap(), ["a.png", "c.png", "d.png"]);
    let events = read_markdown("![a](a.png)");
    assert!(events.iter().any(|e| *e == MarkdownEvent::Image("a.png".to_owned())));
    let items = [
        MarkdownItem::Image("x".to_owned()),
        MarkdownItem::Other,
        MarkdownItem::Html(Some(vec![element("img", Some("y"))])),
    ];
    assert_eq!(markdown_references_from(&items).unwrap(), ["x", "y"]);
    let many: Vec<MarkdownItem> =
        (0..513).map(|_| MarkdownItem::Image("x".to_owned())).collect();
    assert!(markdown_references_from(&many).is_err());
    assert!(markdown_references_from(&[MarkdownItem::Html(None)]).is_err());
}

#[test]
fn style_sheets_name_their_dependencies() {
    let source = "@import 'a.css'; @IMPORT url(b.css); @import /* c */ url( \"c.css\" );\n\
        p { background: url(d.png); content: 'no'; }\n\
        @media print { @import 'e.css'; q { background: URL('f.png') } }\n\
        @import screen 'no.css';";
    assert_eq!(
        css_references(source).unwrap(),
        ["a.css", "b.css", "c.css", "d.png", "e.css", "f.png"]
    );
    assert_eq!(css_references("p { color: red }").unwrap(), Vec::<String>::new());
    let malformed = "CSS support asset contains malformed syntax";
    assert_eq!(css_references("p { background: url(a b) }").unwrap_err(), malformed);
    assert_eq!(css_references("p { content: 'a\nb' }").unwrap_err(), malformed);
    assert_eq!(css_references(&"url(a) ".repeat(513)).unwrap_err(), malformed);
    assert_eq!(css_references(&"url(a) ".repeat(512)).unwrap().len(), 512);
}

fn token(value: CssValue, raw: &str) -> CssToken {
    CssToken { value, raw: raw.to_owned() }
}

#[test]
fn given_tokens_are_scanned() {
    assert_eq!(read_css("a;")[0], token(CssValue::Ident("a".to_owned()), "a"));
    let import = || token(CssValue::AtKeyword("import".to_owned()), "@import");
    let quoted = |name: &str| token(CssValue::Quoted(name.to_owned()), "'..'");
    assert_eq!(
        css_references_from(&[import(), token(CssValue::Space, " "), quoted("a")]).unwrap(),
        ["a"]
    );
    assert_eq!(
        css_references_from(&[import(), token(CssValue::Other, ";"), quoted("a")]).unwrap(),
        Vec::<String>::new()
    );
    let url = || token(CssValue::Function("url".to_owned()), "url(");
    assert_eq!(
        css_references_from(&[url(), quoted("a"), token(CssValue::Other, ")")]).unwrap(),
        ["a"]
    );
    assert!(css_references_from(&[url(), token(CssValue::Other, "1")]).is_err());
    assert!(css_references_from(&[token(CssValue::Bad, "x")]).is_err());
}

#[test]
fn entries_are_known_by_their_extension() {
    assert_eq!(entry_kind(b"/a/b.MD"), EntryKind::Markdown);
    assert_eq!(entry_kind(b"/a/b.markdown"), EntryKind::Markdown);
    assert_eq!(entry_kind(b"/a/b.htm"), EntryKind::Html);
    assert_eq!(entry_kind(b"/a/b.html"), EntryKind::Html);
    assert_eq!(entry_kind(b"/a/b.txt"), EntryKind::Other);
    assert_eq!(entry_kind(b"/a/.html"), EntryKind::Other);
    assert_eq!(entry_references(EntryKind::Markdown, "![](a.png)").unwrap(), ["a.png"]);
    assert_eq!(entry_references(EntryKind::Html, "<img src=a.png>").unwrap(), ["a.png"]);
    assert_eq!(entry_references(EntryKind::Other, "![](a.png)").unwrap(), Vec::<String>::new());
    assert!(ensure_supported_dependency("a.WOFF2").is_ok());
    assert_eq!(
        ensure_supported_dependency("a.exe").unwrap_err(),
        "unsupported local dependency type: a.exe"
    );
}

fn collected(collection: &AssetCollection) -> Vec<String> {
    assert_eq!(collection.step(), &CollectStep::Done);
    collection.assets().iter().map(|asset| asset.to_string()).collect()
}

fn fault(collection: &AssetCollection) -> String {
    match collection.step() {
        CollectStep::Failed(message) => message.to_string(),
        _ => panic!("the collection failed"),
    }
}

#[test]
fn assets_are_collected_with_their_style_sheets() {
    let run = AssetCollection::start(
        b"/work".to_vec(),
        &words(&["css/a.css", "https://x/y.png", "b.png", "css/a.css"]),
    );
    assert_eq!(run.step(), &CollectStep::Resolve("css/a.css".to_owned()));
    let run = run.advance(CollectAnswer::Resolved(Ok(b"/work/css/a.css".to_vec())));
    assert_eq!(run.step(), &CollectStep::Open("css/a.css".to_owned()));
    let run = run.advance(CollectAnswer::Opened(AssetState::Opened));
    assert_eq!(run.step(), &CollectStep::ReadCss("css/a.css".to_owned()));
    let run = run.advance(CollectAnswer::Css(Ok(read_css("@import '../c.css'; p{background:url(d.png)}"))));
    assert_eq!(run.step(), &CollectStep::Resolve("c.css".to_owned()));
    let run = run
        .advance(CollectAnswer::Resolved(Ok(b"/work/c.css".to_vec())))
        .advance(CollectAnswer::Opened(AssetState::Opened))
        .advance(CollectAnswer::Css(Ok(vec![])));
    assert_eq!(run.step(), &CollectStep::Resolve("css/d.png".to_owned()));
    let run = run
        .advance(CollectAnswer::Resolved(Ok(b"/work/css/d.png".to_vec())))
        .advance(CollectAnswer::Opened(AssetState::Opened));
    assert_eq!(run.step(), &CollectStep::Resolve("b.png".to_owned()));
    let run = run
        .advance(CollectAnswer::Resolved(Ok(b"/work/b.png".to_vec())))
        .advance(CollectAnswer::Opened(AssetState::Opened));
    assert_eq!(collected(&run), ["css/a.css", "c.css", "css/d.png", "b.png"]);
}

#[test]
fn collections_fail_on_the_first_fault() {
    let start = |reference: &str| AssetCollection::start(b"/work".to_vec(), &words(&[reference]));
    assert_eq!(fault(&start("../a.png")), "support path traversal escapes the entry directory");
    assert_eq!(fault(&start("a.exe")), "unsupported local dependency type: a.exe");
    let run = start("a.png").advance(CollectAnswer::Resolved(Err("gone".to_owned())));
    assert_eq!(fault(&run), "could not resolve support asset a.png: gone");
    for escaped in [&b"/elsewhere/a.png"[..], &b"/workshop/a.png"[..]] {
        let run = start("a.png").advance(CollectAnswer::Resolved(Ok(escaped.to_vec())));
        assert_eq!(fault(&run), "support asset escapes the entry directory: a.png");
    }
    let opened = |state| {
        fault(
            &start("a.png")
                .advance(CollectAnswer::Resolved(Ok(b"/work/a.png".to_vec())))
                .advance(CollectAnswer::Opened(state)),
        )
    };
    assert_eq!(
        opened(AssetState::NotInspected("e".to_owned())),
        "could not inspect support asset a.png: e"
    );
    assert_eq!(opened(AssetState::NotRegular), "support asset is not a regular file: a.png");
    assert_eq!(opened(AssetState::NotOpened("e".to_owned())), "could not open support asset a.png: e");
    assert_eq!(
        opened(AssetState::NotReinspected("e".to_owned())),
        "could not inspect opened support asset a.png: e"
    );
    assert_eq!(opened(AssetState::Changed), "support asset changed while opening: a.png");
    let css = |answer| {
        start("a.css")
            .advance(CollectAnswer::Resolved(Ok(b"/work/a.css".to_vec())))
            .advance(CollectAnswer::Opened(AssetState::Opened))
            .advance(CollectAnswer::Css(answer))
    };
    assert_eq!(fault(&css(Err("e".to_owned()))), "CSS support asset must be UTF-8 text: e");
    assert_eq!(
        fault(&css(Ok(read_css("url(a b)")))),
        "CSS support asset contains malformed syntax"
    );
    let many: Vec<String> = (0..513).map(|_| "https://x".to_owned()).collect();
    let run = AssetCollection::start(b"/work".to_vec(), &many);
    assert_eq!(fault(&run), "entry document exceeds the support-reference limit");
}

#[test]
fn collections_are_bounded() {
    let names: Vec<String> = (0..256).map(|number| format!("{number}.png")).collect();
    let mut run = AssetCollection::start(b"/work".to_vec(), &names);
    for number in 0..255 {
        run = run
            .advance(CollectAnswer::Resolved(Ok(format!("/work/{number}.png").into_bytes())))
            .advance(CollectAnswer::Opened(AssetState::Opened));
    }
    assert_eq!(fault(&run), "entry document declares too many support assets");
    let mut run = AssetCollection::start(b"/work".to_vec(), &words(&["0.css"]));
    for depth in 0..8 {
        run = run
            .advance(CollectAnswer::Resolved(Ok(format!("/work/{depth}.css").into_bytes())))
            .advance(CollectAnswer::Opened(AssetState::Opened))
            .advance(CollectAnswer::Css(Ok(read_css(&format!("@import '{}.css'", depth + 1)))));
    }
    let run = run
        .advance(CollectAnswer::Resolved(Ok(b"/work/8.css".to_vec())))
        .advance(CollectAnswer::Opened(AssetState::Opened));
    assert_eq!(fault(&run), "CSS dependency recursion exceeds the supported depth");
}

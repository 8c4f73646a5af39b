//! References in CSS.
use vstd::prelude::*;
use cssparser::{Parser, ParserInput, Token};
use crate::cli::assets::html;
use crate::text;

verus! {

/// What a token of CSS holds, as far as references go.
#[derive(Debug, PartialEq, Eq)]
pub enum CssValue {
    Ident(String),
    AtKeyword(String),
    Quoted(String),
    /// `url(` with an unquoted address, and its closing parenthesis.
    Url(String),
    /// A name and the parenthesis that follows it.
    Function(String),
    /// White space or a comment.
    Space,
    /// A string or an address that is malformed.
    Bad,
    Other,
}

/// The model of what a token holds.
pub enum ValueModel {
    Ident(Seq<char>),
    AtKeyword(Seq<char>),
    Quoted(Seq<char>),
    Url(Seq<char>),
    Function(Seq<char>),
    Space,
    Bad,
    Other,
}

impl View for CssValue {
    type V = ValueModel;

    open spec fn view(&self) -> ValueModel {
        match *self {
            CssValue::Ident(value) => ValueModel::Ident(value@),
            CssValue::AtKeyword(value) => ValueModel::AtKeyword(value@),
            CssValue::Quoted(value) => ValueModel::Quoted(value@),
            CssValue::Url(value) => ValueModel::Url(value@),
            CssValue::Function(value) => ValueModel::Function(value@),
            CssValue::Space => ValueModel::Space,
            CssValue::Bad => ValueModel::Bad,
            CssValue::Other => ValueModel::Other,
        }
    }
}

/// A token of CSS: what it holds, and how it is written.
#[derive(Debug, PartialEq, Eq)]
pub struct CssToken {
    pub value: CssValue,
    pub raw: String,
}

impl View for CssToken {
    type V = (ValueModel, Seq<char>);

    open spec fn view(&self) -> (ValueModel, Seq<char>) {
        (self.value@, self.raw@)
    }
}

/// The models of tokens.
pub open spec fn token_models(tokens: Seq<CssToken>) -> Seq<(ValueModel, Seq<char>)> {
    tokens.map_values(|token: CssToken| token@)
}

/// The first token that `cssparser` reads in a text: what it holds, and how it is written. None
/// where the text is empty.
pub uninterp spec fn first_token(source: Seq<char>) -> Option<(ValueModel, Seq<char>)>;

/// `next_including_whitespace_and_comments` of a new `cssparser::Parser` reads the first token of
/// a text, and the parser's position is the token's end: the token is the start of the text, and
/// is not empty. There is no token only where there is no text.
#[verifier::external_body]
fn parse_token(source: &str) -> (first: Option<(CssValue, (&str, &str))>)
    ensures
        match first {
            Some((value, (raw, rest))) => {
                &&& first_token(source@) == Some((value@, raw@))
                &&& raw@.len() > 0
                &&& source@ == raw@ + rest@
            },
            None => first_token(source@) is None && source@.len() == 0,
        },
{
    let mut input = ParserInput::new(source);
    let mut parser = Parser::new(&mut input);
    let value = match parser.next_including_whitespace_and_comments().ok()? {
        Token::Ident(name) => CssValue::Ident(name.to_string()),
        Token::AtKeyword(name) => CssValue::AtKeyword(name.to_string()),
        Token::QuotedString(content) => CssValue::Quoted(content.to_string()),
        Token::UnquotedUrl(content) => CssValue::Url(content.to_string()),
        Token::Function(name) => CssValue::Function(name.to_string()),
        Token::WhiteSpace(_) | Token::Comment(_) => CssValue::Space,
        Token::BadUrl(_) | Token::BadString(_) => CssValue::Bad,
        _ => CssValue::Other,
    };
    Some((value, source.split_at(parser.position().byte_index())))
}

/// The tokens of a text, in order.
pub open spec fn css_tokens(source: Seq<char>) -> Seq<(ValueModel, Seq<char>)>
    decreases source.len(),
{
    match first_token(source) {
        Some(token) => if 0 < token.1.len() <= source.len() {
            seq![token] + css_tokens(source.skip(token.1.len() as int))
        } else {
            Seq::empty()
        },
        None => Seq::empty(),
    }
}

/// Reads the tokens of a text.
pub fn read_css(source: &str) -> (tokens: Vec<CssToken>)
    ensures
        token_models(tokens@) == css_tokens(source@),
{
    let mut tokens: Vec<CssToken> = Vec::new();
    let mut rest: &str = source;
    assert(token_models(tokens@) + css_tokens(source@) =~= css_tokens(source@));
    loop
        invariant
            token_models(tokens@) + css_tokens(rest@) == css_tokens(source@),
        decreases rest@.len(),
    {
        match parse_token(rest) {
            Some((value, (raw, following))) => {
                let token = CssToken { value, raw: text::copy_of(raw) };
                let ghost before = token_models(tokens@);
                let ghost added = token@;
                assert(rest@.skip(raw@.len() as int) =~= following@);
                tokens.push(token);
                assert(token_models(tokens@) =~= before.push(added));
                assert(before + (seq![added] + css_tokens(following@)) =~= before.push(added)
                    + css_tokens(following@));
                rest = following;
            },
            None => {
                assert(token_models(tokens@) + Seq::<(ValueModel, Seq<char>)>::empty()
                    =~= token_models(tokens@));
                return tokens;
            },
        }
    }
}

// ---- scanning ----

/// The argument of `url(` that is being read.
pub enum UrlModel {
    /// None is.
    Outside,
    /// Nothing was read yet.
    Start,
    /// Something was read that is no string.
    Second,
    /// The address was read.
    Complete(Seq<char>),
}

/// The argument of `url(` that is being read.
#[derive(Debug, PartialEq, Eq)]
pub enum UrlArgument {
    Outside,
    Start,
    Second,
    Complete(String),
}

impl View for UrlArgument {
    type V = UrlModel;

    open spec fn view(&self) -> UrlModel {
        match *self {
            UrlArgument::Outside => UrlModel::Outside,
            UrlArgument::Start => UrlModel::Start,
            UrlArgument::Second => UrlModel::Second,
            UrlArgument::Complete(value) => UrlModel::Complete(value@),
        }
    }
}

/// A block that is open: what closes it, and whether an import was waited for around it.
#[derive(Debug, Clone, Copy, PartialEq, Eq, Structural)]
pub struct OpenBlock {
    pub closer: char,
    pub import_pending: bool,
}

/// How far a scan has come: the open blocks, whether an import is waited for, the argument of
/// `url(`, and the references so far.
pub struct ScanModel {
    pub blocks: Seq<OpenBlock>,
    pub import_pending: bool,
    pub url: UrlModel,
    pub references: Seq<Seq<char>>,
}

/// A scan before its first token.
pub open spec fn scan_start() -> ScanModel {
    ScanModel {
        blocks: Seq::empty(),
        import_pending: false,
        url: UrlModel::Outside,
        references: Seq::empty(),
    }
}

/// What closes the block that a punctuation opens.
pub open spec fn closer_of(raw: Seq<char>) -> Option<char> {
    if raw == "("@ {
        Some(')')
    } else if raw == "["@ {
        Some(']')
    } else if raw == "{"@ {
        Some('}')
    } else {
        None
    }
}

/// The scan with a block opened: no import is waited for in it.
pub open spec fn with_block(scan: ScanModel, closer: char) -> ScanModel {
    ScanModel {
        blocks: scan.blocks.push(OpenBlock { closer, import_pending: scan.import_pending }),
        import_pending: false,
        ..scan
    }
}

/// The scan with a reference. None where there are too many.
pub open spec fn with_reference(scan: ScanModel, value: Seq<char>) -> Option<ScanModel> {
    let references = scan.references.push(value);
    if references.len() > html::MAX_REFERENCES {
        None
    } else {
        Some(
            ScanModel { references, import_pending: false, url: UrlModel::Outside, ..scan },
        )
    }
}

/// Whether the token closes the innermost block.
pub open spec fn closes_block(scan: ScanModel, raw: Seq<char>) -> bool {
    scan.blocks.len() > 0 && raw == seq![scan.blocks.last().closer]
}

/// The scan after punctuation and whatever else holds no value.
pub open spec fn after_other(scan: ScanModel, raw: Seq<char>) -> ScanModel {
    match closer_of(raw) {
        Some(closer) => with_block(scan, closer),
        None => if closes_block(scan, raw) {
            ScanModel {
                blocks: scan.blocks.drop_last(),
                import_pending: scan.blocks.last().import_pending,
                ..scan
            }
        } else {
            ScanModel { import_pending: false, ..scan }
        },
    }
}

/// The scan after a token inside `url(`: a string, or an identifier after something that is no
/// string, and nothing more. None where the argument is malformed. A function is named `url` only
/// where a quote follows, so the argument starts with a string, if a malformed one; a block there
/// is malformed too.
pub open spec fn after_in_url(scan: ScanModel, token: (ValueModel, Seq<char>)) -> Option<
    ScanModel,
> {
    if token.0 is Space {
        Some(scan)
    } else {
        match (scan.url, token.0) {
            (UrlModel::Start, ValueModel::Quoted(value)) => Some(
                ScanModel { url: UrlModel::Complete(value), ..scan },
            ),
            (UrlModel::Start, ValueModel::Function(_)) => None,
            (UrlModel::Start, ValueModel::Other) => if closer_of(token.1) is Some || token.1
                == ")"@ {
                None
            } else {
                Some(ScanModel { url: UrlModel::Second, ..scan })
            },
            (UrlModel::Start, _) => Some(ScanModel { url: UrlModel::Second, ..scan }),
            (UrlModel::Second, ValueModel::Ident(value)) => Some(
                ScanModel { url: UrlModel::Complete(value), ..scan },
            ),
            (UrlModel::Complete(value), ValueModel::Other) => if token.1 == ")"@ {
                with_reference(scan, value)
            } else {
                None
            },
            _ => None,
        }
    }
}

/// The scan after a token. None where the CSS is malformed or holds too many references.
pub open spec fn scan_after(scan: ScanModel, token: (ValueModel, Seq<char>)) -> Option<ScanModel> {
    if !(scan.url is Outside) {
        after_in_url(scan, token)
    } else {
        match token.0 {
            ValueModel::AtKeyword(name) => Some(
                ScanModel { import_pending: text::lowercase(name) == "import"@, ..scan },
            ),
            ValueModel::Url(value) => with_reference(scan, value),
            ValueModel::Quoted(value) => if scan.import_pending {
                with_reference(scan, value)
            } else {
                Some(scan)
            },
            ValueModel::Function(name) => if text::lowercase(name) == "url"@ {
                Some(ScanModel { url: UrlModel::Start, ..scan })
            } else {
                Some(with_block(scan, ')'))
            },
            ValueModel::Bad => None,
            ValueModel::Space => Some(scan),
            ValueModel::Ident(_) => Some(ScanModel { import_pending: false, ..scan }),
            ValueModel::Other => Some(after_other(scan, token.1)),
        }
    }
}

/// The scan after the first `count` tokens.
pub open spec fn scanned(tokens: Seq<(ValueModel, Seq<char>)>, count: int) -> Option<ScanModel>
    decreases count,
{
    if count <= 0 {
        Some(scan_start())
    } else {
        match scanned(tokens, count - 1) {
            Some(scan) => scan_after(scan, tokens[count - 1]),
            None => None,
        }
    }
}

/// The references of a scan at the end of the CSS, where blocks and an argument that is complete
/// are closed. None where an argument is not.
pub open spec fn scan_end(scan: ScanModel) -> Option<Seq<Seq<char>>> {
    match scan.url {
        UrlModel::Outside => Some(scan.references),
        UrlModel::Complete(value) => match with_reference(scan, value) {
            Some(last) => Some(last.references),
            None => None,
        },
        _ => None,
    }
}

/// The references in these tokens: the addresses of `url()`, and the strings of `@import`.
pub open spec fn token_references(tokens: Seq<(ValueModel, Seq<char>)>) -> Result<
    Seq<Seq<char>>,
    Seq<char>,
> {
    match scanned(tokens, tokens.len() as int) {
        Some(scan) => match scan_end(scan) {
            Some(references) => Ok(references),
            None => Err("CSS support asset contains malformed syntax"@),
        },
        None => Err("CSS support asset contains malformed syntax"@),
    }
}

struct Scan {
    blocks: Vec<OpenBlock>,
    import_pending: bool,
    url: UrlArgument,
    references: Vec<String>,
}

impl View for Scan {
    type V = ScanModel;

    closed spec fn view(&self) -> ScanModel {
        ScanModel {
            blocks: self.blocks@,
            import_pending: self.import_pending,
            url: self.url@,
            references: text::texts(self.references@),
        }
    }
}

impl Scan {
    fn refer(self, value: &str) -> (next: Option<Self>)
        ensures
            match next {
                Some(scan) => with_reference(self@, value@) == Some(scan@),
                None => with_reference(self@, value@) is None,
            },
    {
        let Scan { blocks, references, .. } = self;
        let ghost before = text::texts(references@);
        let mut references = references;
        references.push(text::copy_of(value));
        assert(text::texts(references@) =~= before.push(value@));
        assert(text::texts(references@).len() == references@.len());
        if references.len() > html::MAX_REFERENCES {
            return None;
        }
        Some(Scan { blocks, import_pending: false, url: UrlArgument::Outside, references })
    }

    fn open(self, closer: char) -> (next: Self)
        ensures
            next@ == with_block(self@, closer),
    {
        let Scan { blocks, import_pending, url, references } = self;
        let mut blocks = blocks;
        blocks.push(OpenBlock { closer, import_pending });
        Scan { blocks, import_pending: false, url, references }
    }

    fn pass_other(self, raw: &str) -> (next: Self)
        ensures
            next@ == after_other(self@, raw@),
    {
        if text::same_text(raw, "(") {
            return self.open(')');
        }
        if text::same_text(raw, "[") {
            return self.open(']');
        }
        if text::same_text(raw, "{") {
            return self.open('}');
        }
        let chars = text::chars_of(raw);
        let Scan { blocks, url, references, .. } = self;
        let mut blocks = blocks;
        if blocks.len() > 0 {
            let last = blocks[blocks.len() - 1];
            if chars.len() == 1 && chars[0] == last.closer {
                assert(raw@ =~= seq![last.closer]);
                let ghost before = blocks@;
                blocks.pop();
                assert(blocks@ =~= before.drop_last());
                return Scan { blocks, import_pending: last.import_pending, url, references };
            }
            assert(raw@ != seq![last.closer]) by {
                if raw@ == seq![last.closer] {
                    assert(raw@.len() == 1 && raw@[0] == last.closer);
                }
            }
        }
        Scan { blocks, import_pending: false, url, references }
    }

    fn pass_in_url(self, token: &CssToken) -> (next: Option<Self>)
        requires
            !(self@.url is Outside),
        ensures
            match next {
                Some(scan) => after_in_url(self@, token@) == Some(scan@),
                None => after_in_url(self@, token@) is None,
            },
    {
        if let CssValue::Space = token.value {
            return Some(self);
        }
        let Scan { blocks, import_pending, url, references } = self;
        match (url, &token.value) {
            (UrlArgument::Start, CssValue::Quoted(value)) => Some(
                Scan {
                    blocks,
                    import_pending,
                    url: UrlArgument::Complete(text::copy_of(value.as_str())),
                    references,
                },
            ),
            (UrlArgument::Start, CssValue::Function(_)) => None,
            (UrlArgument::Start, CssValue::Other) => {
                let raw = token.raw.as_str();
                if text::same_text(raw, "(") || text::same_text(raw, "[") || text::same_text(
                    raw,
                    "{",
                ) || text::same_text(raw, ")") {
                    None
                } else {
                    Some(Scan { blocks, import_pending, url: UrlArgument::Second, references })
                }
            },
            (UrlArgument::Start, _) => Some(
                Scan { blocks, import_pending, url: UrlArgument::Second, references },
            ),
            (UrlArgument::Second, CssValue::Ident(value)) => Some(
                Scan {
                    blocks,
                    import_pending,
                    url: UrlArgument::Complete(text::copy_of(value.as_str())),
                    references,
                },
            ),
            (UrlArgument::Complete(value), CssValue::Other) => {
                if text::same_text(token.raw.as_str(), ")") {
                    let scan = Scan {
                        blocks,
                        import_pending,
                        url: UrlArgument::Outside,
                        references,
                    };
                    scan.refer(value.as_str())
                } else {
                    None
                }
            },
            _ => None,
        }
    }

    fn pass(self, token: &CssToken) -> (next: Option<Self>)
        ensures
            match next {
                Some(scan) => scan_after(self@, token@) == Some(scan@),
                None => scan_after(self@, token@) is None,
            },
    {
        if let UrlArgument::Outside = self.url {
        } else {
            return self.pass_in_url(token);
        }
        match &token.value {
            CssValue::AtKeyword(name) => {
                let lower = text::to_lowercase(name.as_str());
                let Scan { blocks, url, references, .. } = self;
                Some(
                    Scan {
                        blocks,
                        import_pending: text::same_text(lower.as_str(), "import"),
                        url,
                        references,
                    },
                )
            },
            CssValue::Url(value) => self.refer(value.as_str()),
            CssValue::Quoted(value) => {
                if self.import_pending {
                    self.refer(value.as_str())
                } else {
                    Some(self)
                }
            },
            CssValue::Function(name) => {
                let lower = text::to_lowercase(name.as_str());
                if text::same_text(lower.as_str(), "url") {
                    let Scan { blocks, import_pending, references, .. } = self;
                    Some(Scan { blocks, import_pending, url: UrlArgument::Start, references })
                } else {
                    Some(self.open(')'))
                }
            },
            CssValue::Bad => None,
            CssValue::Space => Some(self),
            CssValue::Ident(_) => {
                let Scan { blocks, url, references, .. } = self;
                Some(Scan { blocks, import_pending: false, url, references })
            },
            CssValue::Other => Some(self.pass_other(token.raw.as_str())),
        }
    }

    fn end(self) -> (references: Option<Vec<String>>)
        ensures
            match references {
                Some(list) => scan_end(self@) == Some(text::texts(list@)),
                None => scan_end(self@) is None,
            },
    {
        let Scan { blocks, import_pending, url, references } = self;
        match url {
            UrlArgument::Outside => Some(references),
            UrlArgument::Complete(value) => {
                let scan = Scan { blocks, import_pending, url: UrlArgument::Outside, references };
                match scan.refer(value.as_str()) {
                    Some(last) => Some(last.references),
                    None => None,
                }
            },
            _ => None,
        }
    }
}

proof fn lemma_scan_ends(tokens: Seq<(ValueModel, Seq<char>)>, count: int, last: int)
    requires
        count <= last,
        scanned(tokens, count) is None,
    ensures
        scanned(tokens, last) is None,
    decreases last - count,
{
    if count < last {
        lemma_scan_ends(tokens, count, last - 1);
    }
}

/// The references in these tokens.
pub fn css_references_from(tokens: &[CssToken]) -> (result: Result<Vec<String>, String>)
    ensures
        match (result, token_references(token_models(tokens@))) {
            (Ok(references), Ok(model)) => text::texts(references@) == model,
            (Err(message), Err(model)) => message@ == model,
            _ => false,
        },
{
    let ghost models = token_models(tokens@);
    let mut scan = Scan {
        blocks: Vec::new(),
        import_pending: false,
        url: UrlArgument::Outside,
        references: Vec::new(),
    };
    proof {
        assert(scan@.blocks =~= Seq::<OpenBlock>::empty());
        assert(scan@.references =~= Seq::<Seq<char>>::empty());
        assert(models.len() == tokens@.len());
    }
    let mut i: usize = 0;
    while i < tokens.len()
        invariant
            i <= tokens.len(),
            models == token_models(tokens@),
            models.len() == tokens@.len(),
            scanned(models, i as int) == Some(scan@),
        decreases tokens.len() - i,
    {
        assert(models[i as int] == tokens@[i as int]@);
        match scan.pass(&tokens[i]) {
            Some(next) => {
                scan = next;
            },
            None => {
                proof {
                    lemma_scan_ends(models, i + 1, models.len() as int);
                }
                return Err(text::copy_of("CSS support asset contains malformed syntax"));
            },
        }
        i += 1;
    }
    match scan.end() {
        Some(references) => Ok(references),
        None => Err(text::copy_of("CSS support asset contains malformed syntax")),
    }
}

/// The references in CSS.
pub fn css_references(source: &str) -> (result: Result<Vec<String>, String>)
    ensures
        match (result, token_references(css_tokens(source@))) {
            (Ok(references), Ok(model)) => text::texts(references@) == model,
            (Err(message), Err(model)) => message@ == model,
            _ => false,
        },
{
    let tokens = read_css(source);
    css_references_from(&tokens)
}

proof fn lemma_scan_bounded(tokens: Seq<(ValueModel, Seq<char>)>, count: int)
    ensures
        scanned(tokens, count) matches Some(scan) ==> scan.references.len()
            <= html::MAX_REFERENCES,
    decreases count,
{
    if count > 0 {
        lemma_scan_bounded(tokens, count - 1);
    }
}

/// CSS that is accepted holds 512 references at most.
pub proof fn law_css_references_are_bounded(tokens: Seq<(ValueModel, Seq<char>)>)
    ensures
        token_references(tokens) matches Ok(references) ==> references.len()
            <= html::MAX_REFERENCES,
{
    lemma_scan_bounded(tokens, tokens.len() as int);
}

} // verus!

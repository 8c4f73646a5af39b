//! The daemon's log: one JSON object on each line, within bounds.
use vstd::prelude::*;
use vstd::utf8::*;
use crate::text;

verus! {

/// The largest line, with its end, in bytes.
pub const MAX_LINE_BYTES: usize = 4096;

/// The longest text in a field, in bytes.
pub const MAX_STRING_FIELD_BYTES: usize = 256;

/// How much an event matters, and how much of the log is kept.
#[derive(Debug, Clone, Copy, PartialEq, Eq, Structural)]
pub enum LogLevel {
    Error,
    Warn,
    Info,
}

/// A text that names no log level.
#[derive(Debug, Clone, Copy, PartialEq, Eq, Structural)]
pub struct InvalidLogLevel;

/// The name of a level.
pub open spec fn level_name(level: LogLevel) -> Seq<char> {
    match level {
        LogLevel::Error => "error"@,
        LogLevel::Warn => "warn"@,
        LogLevel::Info => "info"@,
    }
}

/// Whether a log at `level` keeps an event of the other level: errors are always kept, warnings
/// unless only errors are, and information only where everything is.
pub open spec fn keeps(level: LogLevel, event: LogLevel) -> bool {
    match level {
        LogLevel::Error => event == LogLevel::Error,
        LogLevel::Warn => event != LogLevel::Info,
        LogLevel::Info => true,
    }
}

/// The level that an environment value names; all is logged where there is none.
pub open spec fn named_level(value: Option<Seq<u8>>) -> Option<LogLevel> {
    match value {
        None => Some(LogLevel::Info),
        Some(bytes) => if !valid_utf8(bytes) {
            None
        } else if decode_utf8(bytes) == "error"@ {
            Some(LogLevel::Error)
        } else if decode_utf8(bytes) == "warn"@ {
            Some(LogLevel::Warn)
        } else if decode_utf8(bytes) == "info"@ {
            Some(LogLevel::Info)
        } else {
            None
        },
    }
}

impl LogLevel {
    /// Reads a level from an environment value.
    pub fn parse(value: Option<&[u8]>) -> (result: Result<Self, InvalidLogLevel>)
        ensures
            match result {
                Ok(level) => named_level(
                    match value {
                        Some(bytes) => Some(bytes@),
                        None => None,
                    },
                ) == Some(level),
                Err(_) => named_level(
                    match value {
                        Some(bytes) => Some(bytes@),
                        None => None,
                    },
                ) is None,
            },
    {
        let bytes = match value {
            None => {
                return Ok(LogLevel::Info);
            },
            Some(bytes) => bytes,
        };
        match text::utf8_text(bytes) {
            None => Err(InvalidLogLevel),
            Some(name) => {
                if text::same_text(name, "error") {
                    Ok(LogLevel::Error)
                } else if text::same_text(name, "warn") {
                    Ok(LogLevel::Warn)
                } else if text::same_text(name, "info") {
                    Ok(LogLevel::Info)
                } else {
                    Err(InvalidLogLevel)
                }
            },
        }
    }

    /// The name of the level.
    pub fn name(self) -> (name: &'static str)
        ensures
            name@ == level_name(self),
    {
        match self {
            LogLevel::Error => "error",
            LogLevel::Warn => "warn",
            LogLevel::Info => "info",
        }
    }

    /// Whether a log at this level keeps an event of the other level.
    pub fn permits(self, event: Self) -> (yes: bool)
        ensures
            yes == keeps(self, event),
    {
        match self {
            LogLevel::Error => event == LogLevel::Error,
            LogLevel::Warn => event != LogLevel::Info,
            LogLevel::Info => true,
        }
    }
}

/// Whatever a stricter log keeps, a laxer one keeps too, and every log keeps errors.
pub proof fn law_levels_are_nested(event: LogLevel)
    ensures
        keeps(LogLevel::Error, event) ==> keeps(LogLevel::Warn, event),
        keeps(LogLevel::Warn, event) ==> keeps(LogLevel::Info, event),
        keeps(LogLevel::Error, LogLevel::Error),
{
}

// ---- bounded text ----

/// The number of leading characters whose UTF-8 form has at most `limit` bytes.
pub open spec fn fitting(s: Seq<char>, limit: nat) -> nat
    decreases s.len(),
{
    if s.len() == 0 {
        0
    } else if encode_utf8(s).len() <= limit {
        s.len()
    } else {
        fitting(s.drop_last(), limit)
    }
}

/// The longest beginning of the text whose UTF-8 form has at most `limit` bytes.
pub open spec fn bounded(s: Seq<char>, limit: nat) -> Seq<char> {
    s.take(fitting(s, limit) as int)
}

proof fn lemma_encode_push(s: Seq<char>, c: char)
    ensures
        encode_utf8(s.push(c)) == encode_utf8(s) + encode_scalar(c as u32),
    decreases s.len(),
{
    if s.len() == 0 {
        assert(s.push(c).drop_first() =~= Seq::<char>::empty());
        assert(encode_utf8(Seq::<char>::empty()) =~= Seq::<u8>::empty());
        assert(s.push(c)[0] == c);
        assert(encode_scalar(c as u32) + Seq::<u8>::empty() =~= encode_scalar(c as u32));
        assert(encode_utf8(s) + encode_scalar(c as u32) =~= encode_scalar(c as u32));
    } else {
        lemma_encode_push(s.drop_first(), c);
        assert(s.push(c).drop_first() =~= s.drop_first().push(c));
        assert(s.push(c)[0] == s[0]);
        assert(encode_utf8(s.push(c)) =~= encode_utf8(s) + encode_scalar(c as u32));
    }
}

proof fn lemma_fitting_stops(s: Seq<char>, k: int, limit: nat)
    requires
        0 <= k < s.len(),
        encode_utf8(s.take(k)).len() <= limit,
        encode_utf8(s.take(k + 1)).len() > limit,
    ensures
        fitting(s, limit) == k,
    decreases s.len(),
{
    lemma_encoding_grows(s, k + 1);
    if s.len() == k + 1 {
        assert(s.drop_last() =~= s.take(k));
        assert(s.take(k + 1) =~= s);
        if k > 0 {
            assert(fitting(s.take(k), limit) == k);
        }
    } else {
        assert(s.drop_last().take(k) =~= s.take(k));
        assert(s.drop_last().take(k + 1) =~= s.take(k + 1));
        lemma_fitting_stops(s.drop_last(), k, limit);
    }
}

proof fn lemma_encoding_grows(s: Seq<char>, k: int)
    requires
        0 <= k <= s.len(),
    ensures
        encode_utf8(s.take(k)).len() <= encode_utf8(s).len(),
    decreases s.len() - k,
{
    if k < s.len() {
        assert(s.take(k + 1) =~= s.take(k).push(s[k]));
        lemma_encode_push(s.take(k), s[k]);
        lemma_encoding_grows(s, k + 1);
    } else {
        assert(s.take(k) =~= s);
    }
}

fn scalar_len(c: char) -> (len: usize)
    ensures
        len == encode_scalar(c as u32).len(),
        1 <= len <= 4,
{
    let code: u32 = c as u32;
    if code < 0x80 {
        1
    } else if code < 0x800 {
        2
    } else if code < 0x10000 {
        3
    } else {
        4
    }
}

/// The longest beginning of a text whose UTF-8 form has at most 256 bytes.
pub fn bounded_string(value: &str) -> (result: String)
    ensures
        result@ == bounded(value@, MAX_STRING_FIELD_BYTES as nat),
{
    let chars = text::chars_of(value);
    let mut result = String::new();
    let mut used: usize = 0;
    let mut i: usize = 0;
    proof {
        assert(value@.take(0) =~= Seq::<char>::empty());
        assert(encode_utf8(value@.take(0)) =~= Seq::<u8>::empty());
    }
    while i < chars.len()
        invariant
            i <= chars.len(),
            chars@ == value@,
            result@ == value@.take(i as int),
            used == encode_utf8(value@.take(i as int)).len(),
            used <= MAX_STRING_FIELD_BYTES,
        decreases chars.len() - i,
    {
        let len: usize = scalar_len(chars[i]);
        proof {
            assert(value@.take(i + 1) =~= value@.take(i as int).push(value@[i as int]));
            lemma_encode_push(value@.take(i as int), value@[i as int]);
        }
        if used + len > MAX_STRING_FIELD_BYTES {
            proof {
                lemma_fitting_stops(value@, i as int, MAX_STRING_FIELD_BYTES as nat);
            }
            return result;
        }
        result.push(chars[i]);
        used = used + len;
        i += 1;
    }
    proof {
        assert(value@.take(value@.len() as int) =~= value@);
    }
    result
}

proof fn lemma_fitting_within(s: Seq<char>, limit: nat)
    ensures
        fitting(s, limit) <= s.len(),
    decreases s.len(),
{
    if s.len() > 0 && encode_utf8(s).len() > limit {
        lemma_fitting_within(s.drop_last(), limit);
    }
}

/// A bounded text is the beginning of the whole, fits its bound, and is the whole where that
/// fits.
pub proof fn law_bounded_text_fits(s: Seq<char>, limit: nat)
    ensures
        bounded(s, limit).len() <= s.len(),
        bounded(s, limit) == s.take(bounded(s, limit).len() as int),
        encode_utf8(bounded(s, limit)).len() <= limit,
        encode_utf8(s).len() <= limit ==> bounded(s, limit) == s,
    decreases s.len(),
{
    if s.len() == 0 {
        assert(bounded(s, limit) =~= s);
        assert(encode_utf8(s) =~= Seq::<u8>::empty());
    } else if encode_utf8(s).len() <= limit {
        assert(s.take(s.len() as int) =~= s);
    } else {
        law_bounded_text_fits(s.drop_last(), limit);
        lemma_fitting_within(s.drop_last(), limit);
        let k = fitting(s.drop_last(), limit) as int;
        assert(bounded(s.drop_last(), limit).len() == k);
        assert(s.drop_last().take(k) =~= s.take(k));
    }
}

// ---- lines ----

/// A value in the log.
#[derive(Debug)]
pub enum LogValue {
    Text(String),
    Count(u64),
}

/// A named value in the log.
#[derive(Debug)]
pub struct LogField {
    pub name: String,
    pub value: LogValue,
}

/// The model of a value in the log.
pub enum LogModel {
    Text(Seq<char>),
    Count(u64),
}

impl View for LogField {
    type V = (Seq<char>, LogModel);

    open spec fn view(&self) -> (Seq<char>, LogModel) {
        (
            self.name@,
            match self.value {
                LogValue::Text(value) => LogModel::Text(value@),
                LogValue::Count(value) => LogModel::Count(value),
            },
        )
    }
}

/// The models of a list of fields.
pub open spec fn models(fields: Seq<LogField>) -> Seq<(Seq<char>, LogModel)> {
    fields.map_values(|field: LogField| field@)
}

/// A field with its text bounded.
pub open spec fn bounded_model(field: (Seq<char>, LogModel)) -> (Seq<char>, LogModel) {
    (
        field.0,
        match field.1 {
            LogModel::Text(value) => LogModel::Text(bounded(value, MAX_STRING_FIELD_BYTES as nat)),
            LogModel::Count(value) => LogModel::Count(value),
        },
    )
}

/// The fields of a line: the schema's version, the time, the level, the event, and the event's
/// own fields, every text within its bound.
pub open spec fn line_fields(
    level: LogLevel,
    event: Seq<char>,
    timestamp: u64,
    fields: Seq<(Seq<char>, LogModel)>,
) -> Seq<(Seq<char>, LogModel)> {
    seq![
        ("schema_version"@, LogModel::Count(1)),
        ("timestamp"@, LogModel::Count(timestamp)),
        ("level"@, LogModel::Text(level_name(level))),
        ("event"@, LogModel::Text(bounded(event, MAX_STRING_FIELD_BYTES as nat))),
    ] + fields.map_values(|field: (Seq<char>, LogModel)| bounded_model(field))
}

/// A text field.
pub fn text_field(name: &str, value: &str) -> (field: LogField)
    ensures
        field@ == (name@, LogModel::Text(value@)),
{
    LogField { name: text::copy_of(name), value: LogValue::Text(text::copy_of(value)) }
}

/// A count field.
pub fn count_field(name: &str, value: u64) -> (field: LogField)
    ensures
        field@ == (name@, LogModel::Count(value)),
{
    LogField { name: text::copy_of(name), value: LogValue::Count(value) }
}

fn compose_fields(level: LogLevel, event: &str, timestamp: u64, fields: &[LogField]) -> (all: Vec<
    LogField,
>)
    ensures
        models(all@) == line_fields(level, event@, timestamp, models(fields@)),
{
    let mut all: Vec<LogField> = Vec::new();
    all.push(count_field("schema_version", 1));
    all.push(count_field("timestamp", timestamp));
    all.push(text_field("level", level.name()));
    all.push(text_field("event", bounded_string(event).as_str()));
    let ghost start = models(all@);
    let ghost rest = models(fields@).map_values(
        |field: (Seq<char>, LogModel)| bounded_model(field),
    );
    assert(start =~= seq![
        ("schema_version"@, LogModel::Count(1)),
        ("timestamp"@, LogModel::Count(timestamp)),
        ("level"@, LogModel::Text(level_name(level))),
        ("event"@, LogModel::Text(bounded(event@, MAX_STRING_FIELD_BYTES as nat))),
    ]);
    let mut i: usize = 0;
    assert(start + rest.take(0) =~= start);
    while i < fields.len()
        invariant
            i <= fields.len(),
            rest == models(fields@).map_values(
                |field: (Seq<char>, LogModel)| bounded_model(field),
            ),
            models(all@) == start + rest.take(i as int),
        decreases fields.len() - i,
    {
        let ghost before = models(all@);
        let field = match &fields[i].value {
            LogValue::Text(value) => text_field(
                fields[i].name.as_str(),
                bounded_string(value.as_str()).as_str(),
            ),
            LogValue::Count(value) => count_field(fields[i].name.as_str(), *value),
        };
        assert(field@ == rest[i as int]);
        all.push(field);
        proof {
            assert(models(all@) =~= before.push(field@));
            assert(models(all@) =~= start + rest.take(i + 1));
        }
        i += 1;
    }
    assert(rest.take(rest.len() as int) =~= rest);
    all
}

/// The bytes that `serde_json::to_vec` writes for a JSON object with the given members; of
/// members with the same name the last one counts.
pub uninterp spec fn json_object(members: Seq<(Seq<char>, LogModel)>) -> Option<Seq<u8>>;

/// `serde_json::to_vec` writes a JSON object with the given members.
#[verifier::external_body]
fn encode_object(members: &[LogField]) -> (result: Option<Vec<u8>>)
    ensures
        match result {
            Some(bytes) => json_object(models(members@)) == Some(bytes@),
            None => json_object(models(members@)) is None,
        },
{
    let mut object = serde_json::Map::new();
    for member in members {
        let value = match &member.value {
            LogValue::Text(value) => serde_json::Value::from(value.as_str()),
            LogValue::Count(value) => serde_json::Value::from(*value),
        };
        object.insert(member.name.clone(), value);
    }
    serde_json::to_vec(&serde_json::Value::Object(object)).ok()
}

/// What is logged where a line cannot be.
pub open spec fn fallback_line() -> Seq<u8> {
    encode_utf8(
        "{\"schema_version\":1,\"timestamp\":0,\"level\":\"error\",\"event\":\"logger_error\"}"@,
    )
}

/// The line for an encoded object: the object and the end of the line, or the fallback where
/// there is no object or the line would be too long.
pub open spec fn line_of(encoded: Option<Seq<u8>>) -> Seq<u8> {
    (match encoded {
        Some(bytes) => if bytes.len() + 1 > MAX_LINE_BYTES {
            fallback_line()
        } else {
            bytes
        },
        None => fallback_line(),
    }).push(10)
}

/// The line for an encoded object.
pub fn finish_line(encoded: Option<Vec<u8>>) -> (line: Vec<u8>)
    ensures
        line@ == line_of(
            match encoded {
                Some(bytes) => Some(bytes@),
                None => None,
            },
        ),
{
    let fallback =
        "{\"schema_version\":1,\"timestamp\":0,\"level\":\"error\",\"event\":\"logger_error\"}";
    let mut line = match encoded {
        Some(bytes) => {
            if bytes.len() >= MAX_LINE_BYTES {
                text::copy_bytes(fallback.as_bytes())
            } else {
                bytes
            }
        },
        None => text::copy_bytes(fallback.as_bytes()),
    };
    line.push(10);
    line
}

/// Every line is within its bound and ends with the end of a line.
pub proof fn law_lines_are_bounded(encoded: Option<Seq<u8>>)
    ensures
        line_of(encoded).len() <= MAX_LINE_BYTES,
        line_of(encoded).last() == 10,
{
    reveal_strlit(
        "{\"schema_version\":1,\"timestamp\":0,\"level\":\"error\",\"event\":\"logger_error\"}",
    );
    let fallback =
        "{\"schema_version\":1,\"timestamp\":0,\"level\":\"error\",\"event\":\"logger_error\"}"@;
    assert(is_ascii_chars(fallback));
    is_ascii_chars_encode_utf8(fallback);
}

/// A log at a level.
#[derive(Debug, Clone, Copy, PartialEq, Eq, Structural)]
pub struct Logger {
    pub level: LogLevel,
}

impl Logger {
    /// A log at the given level.
    pub fn new(level: LogLevel) -> (logger: Self)
        ensures
            logger.level == level,
    {
        Logger { level }
    }

    /// The line for an event, where the log keeps it. A clock before 1970 is logged as zero.
    pub fn emit(&self, level: LogLevel, event: &str, fields: &[LogField], seconds: Option<u64>) -> (line:
        Option<Vec<u8>>)
        ensures
            match line {
                Some(bytes) => keeps(self.level, level) && bytes@ == line_of(
                    json_object(
                        line_fields(
                            level,
                            event@,
                            match seconds {
                                Some(value) => value,
                                None => 0,
                            },
                            models(fields@),
                        ),
                    ),
                ),
                None => !keeps(self.level, level),
            },
    {
        if !self.level.permits(level) {
            return None;
        }
        let timestamp: u64 = match seconds {
            Some(value) => value,
            None => 0,
        };
        let members = compose_fields(level, event, timestamp, fields);
        Some(finish_line(encode_object(&members)))
    }
}

} // verus!

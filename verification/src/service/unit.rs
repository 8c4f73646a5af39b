//! The service unit: where it stands, what it holds, and whether it is Glimse's own.
use vstd::prelude::*;
use vstd::utf8::*;
use crate::bytes;
use crate::cli::error;
use crate::cli::error::{CliError, CliErrorModel};
use crate::path;
use crate::text;

verus! {

/// The name of the unit.
pub const UNIT_NAME: &'static str = "glim.service";

/// The first line of a unit that Glimse manages.
pub const MANAGED_MARKER: &'static str = "# Managed by Glimse. Do not edit.\n";

/// The largest unit, in bytes.
pub const MAX_UNIT_BYTES: u64 = 65_536;

// ---- the executable's path ----

/// Whether a character would end or change a quoted token.
pub open spec fn is_quoting(c: char) -> bool {
    c == '\'' || c == '"' || c == '\\'
}

/// A character as it stands inside a quoted token: a percent sign is doubled.
pub open spec fn escaped_char(c: char) -> Seq<char> {
    if c == '%' {
        seq!['%', '%']
    } else {
        seq![c]
    }
}

/// A text as it stands inside a quoted token, or what is wrong with its first character that
/// cannot stand there.
pub open spec fn escaped_token(s: Seq<char>) -> Result<Seq<char>, Seq<char>>
    decreases s.len(),
{
    if s.len() == 0 {
        Ok(Seq::empty())
    } else if is_quoting(s[0]) {
        Err("executable path contains systemd-forbidden quoting characters"@)
    } else if text::is_control(s[0]) {
        Err("executable path contains a control character"@)
    } else {
        match escaped_token(s.drop_first()) {
            Err(message) => Err(message),
            Ok(rest) => Ok(escaped_char(s[0]) + rest),
        }
    }
}

/// An executable's path as it stands inside a quoted token.
pub open spec fn escaped_path(location: Seq<u8>) -> Result<Seq<char>, Seq<char>> {
    if !valid_utf8(location) {
        Err("executable path is not valid UTF-8"@)
    } else if !path::is_absolute(location) {
        Err("executable path is not absolute"@)
    } else {
        escaped_token(decode_utf8(location))
    }
}

/// Escapes an executable path for use inside a double-quoted `ExecStart` token.
pub fn escape_systemd_exec_path(location: &[u8]) -> (result: Result<String, String>)
    ensures
        match (result, escaped_path(location@)) {
            (Ok(escaped), Ok(model)) => escaped@ == model,
            (Err(message), Err(model)) => message@ == model,
            _ => false,
        },
{
    let value = match text::utf8_text(location) {
        Some(value) => value,
        None => {
            return Err(text::copy_of("executable path is not valid UTF-8"));
        },
    };
    if !path::absolute(location) {
        return Err(text::copy_of("executable path is not absolute"));
    }
    let chars = text::chars_of(value);
    let mut escaped: Vec<char> = Vec::new();
    let mut i: usize = 0;
    assert(value@.skip(0) =~= value@);
    while i < chars.len()
        invariant
            i <= chars.len(),
            chars@ == value@,
            escaped_token(value@) == match escaped_token(value@.skip(i as int)) {
                Err(message) => Err::<Seq<char>, Seq<char>>(message),
                Ok(rest) => Ok(escaped@ + rest),
            },
            escaped_path(location@) == escaped_token(value@),
        decreases chars.len() - i,
    {
        let c = chars[i];
        assert(value@.skip(i as int)[0] == c);
        assert(value@.skip(i as int).drop_first() =~= value@.skip(i + 1));
        if c == '\'' || c == '"' || c == '\\' {
            return Err(
                text::copy_of("executable path contains systemd-forbidden quoting characters"),
            );
        }
        if text::control(c) {
            return Err(text::copy_of("executable path contains a control character"));
        }
        let ghost before = escaped@;
        escaped.push(c);
        if c == '%' {
            escaped.push(c);
        }
        proof {
            assert(escaped@ =~= before + escaped_char(c));
            if let Ok(rest) = escaped_token(value@.skip(i + 1)) {
                assert(before + (escaped_char(c) + rest) =~= before + escaped_char(c) + rest);
            }
        }
        i += 1;
    }
    assert(value@.skip(chars@.len() as int).len() == 0);
    assert(escaped@ + Seq::<char>::empty() =~= escaped@);
    Ok(text::string_of(&escaped))
}

/// The text that a quoted token stands for: a doubled percent sign is one.
pub open spec fn unescaped_token(s: Seq<char>) -> Seq<char>
    decreases s.len(),
{
    if s.len() == 0 {
        Seq::empty()
    } else if s.len() >= 2 && s[0] == '%' && s[1] == '%' {
        seq!['%'] + unescaped_token(s.skip(2))
    } else {
        seq![s[0]] + unescaped_token(s.drop_first())
    }
}

/// An escaped path reads back as the path.
pub proof fn law_escaped_path_reads_back(s: Seq<char>)
    requires
        escaped_token(s) is Ok,
    ensures
        unescaped_token(escaped_token(s)->Ok_0) == s,
    decreases s.len(),
{
    if s.len() > 0 {
        let rest = escaped_token(s.drop_first())->Ok_0;
        law_escaped_path_reads_back(s.drop_first());
        let whole = escaped_char(s[0]) + rest;
        if s[0] == '%' {
            assert(whole.skip(2) =~= rest);
        } else {
            assert(whole.drop_first() =~= rest);
        }
        assert(seq![s[0]] + s.drop_first() =~= s);
    }
}

/// An escaped path holds nothing that could end or change the quoted token.
pub proof fn law_escaped_path_stays_quoted(s: Seq<char>, i: int)
    requires
        escaped_token(s) is Ok,
        0 <= i < escaped_token(s)->Ok_0.len(),
    ensures
        !is_quoting(escaped_token(s)->Ok_0[i]),
        !text::is_control(escaped_token(s)->Ok_0[i]),
    decreases s.len(),
{
    if s.len() > 0 {
        let width = escaped_char(s[0]).len();
        if i >= width {
            law_escaped_path_stays_quoted(s.drop_first(), i - width);
        }
    }
}

/// Which paths can be escaped: those without quoting and control characters.
pub proof fn law_which_paths_are_escaped(s: Seq<char>)
    ensures
        escaped_token(s) is Ok <==> forall|i: int|
            0 <= i < s.len() ==> !is_quoting(#[trigger] s[i]) && !text::is_control(s[i]),
    decreases s.len(),
{
    if s.len() > 0 {
        law_which_paths_are_escaped(s.drop_first());
        let rest = s.drop_first();
        assert(forall|i: int| 0 <= i < rest.len() ==> rest[i] == s[i + 1]);
        if escaped_token(s) is Ok {
            assert forall|i: int| 0 <= i < s.len() implies !is_quoting(#[trigger] s[i])
                && !text::is_control(s[i]) by {
                if i > 0 {
                    assert(rest[i - 1] == s[i]);
                }
            }
        }
    }
}

// ---- where the unit stands ----

/// The value, where it is UTF-8 and an absolute path.
pub open spec fn usable_home(value: Option<Seq<u8>>) -> Option<Seq<u8>> {
    match value {
        Some(bytes) => if path::is_absolute(bytes) && valid_utf8(bytes) {
            Some(bytes)
        } else {
            None
        },
        None => None,
    }
}

/// The unit below a configuration directory.
pub open spec fn unit_below(base: Seq<u8>) -> Seq<u8> {
    path::below(path::below(base, encode_utf8("systemd/user"@)), encode_utf8(UNIT_NAME@))
}

/// Where the unit stands: below `XDG_CONFIG_HOME`, or below the home directory's `.config`.
pub open spec fn unit_place(xdg_config_home: Option<Seq<u8>>, home: Option<Seq<u8>>) -> Option<
    Seq<u8>,
> {
    match (usable_home(xdg_config_home), usable_home(home)) {
        (Some(base), _) => Some(unit_below(base)),
        (None, Some(base)) => Some(unit_below(path::below(base, encode_utf8(".config"@)))),
        (None, None) => None,
    }
}

fn is_usable_home(value: Option<&[u8]>) -> (yes: bool)
    ensures
        yes == usable_home(
            match value {
                Some(bytes) => Some(bytes@),
                None => None,
            },
        ) is Some,
{
    match value {
        Some(bytes) => path::absolute(bytes) && text::utf8_text(bytes).is_some(),
        None => false,
    }
}

fn joined_unit(base: &[u8]) -> (location: Vec<u8>)
    ensures
        location@ == unit_below(base@),
{
    let directory = path::joined_path(base, "systemd/user");
    path::joined_path(&directory, UNIT_NAME)
}

/// Where the unit stands.
pub fn unit_path(xdg_config_home: Option<&[u8]>, home: Option<&[u8]>) -> (result: Result<
    Vec<u8>,
    CliError,
>)
    ensures
        match (
            result,
            unit_place(
                match xdg_config_home {
                    Some(bytes) => Some(bytes@),
                    None => None,
                },
                match home {
                    Some(bytes) => Some(bytes@),
                    None => None,
                },
            ),
        ) {
            (Ok(location), Some(model)) => location@ == model,
            (Err(failure), None) => failure@ == error::plain(
                "service_configuration_error"@,
                "service unit directory requires an absolute XDG_CONFIG_HOME or HOME"@,
            ),
            _ => false,
        },
{
    if is_usable_home(xdg_config_home) {
        if let Some(base) = xdg_config_home {
            return Ok(joined_unit(base));
        }
    }
    if is_usable_home(home) {
        if let Some(base) = home {
            let directory = path::joined_path(base, ".config");
            return Ok(joined_unit(&directory));
        }
    }
    Err(
        CliError::new(
            "service_configuration_error",
            "service unit directory requires an absolute XDG_CONFIG_HOME or HOME",
        ),
    )
}

// ---- what the unit holds ----

/// The unit that runs the executable.
pub open spec fn unit_text(escaped: Seq<char>) -> Seq<char> {
    MANAGED_MARKER@
        + "[Unit]\nDescription=Glimse visual output daemon\n\n[Service]\nType=simple\nExecStart=\""@
        + escaped
        + "\" daemon\nRestart=on-failure\nRestartSec=2s\nUMask=0077\n\n[Install]\nWantedBy=default.target\n"@
}

/// The unit that runs the executable at a path; none where the executable is not known.
pub open spec fn rendered_unit(executable: Option<Seq<u8>>) -> Result<Seq<char>, CliErrorModel> {
    match executable {
        None => Err(
            error::plain(
                "service_executable_error"@,
                "could not resolve the current executable"@,
            ),
        ),
        Some(location) => match escaped_path(location) {
            Err(message) => Err(
                error::plain(
                    "service_executable_error"@,
                    "current executable cannot be represented safely: "@ + message,
                ),
            ),
            Ok(escaped) => Ok(unit_text(escaped)),
        },
    }
}

/// Renders the unit that runs the executable.
pub fn render_unit(executable: Option<&[u8]>) -> (result: Result<String, CliError>)
    ensures
        match (
            result,
            rendered_unit(
                match executable {
                    Some(location) => Some(location@),
                    None => None,
                },
            ),
        ) {
            (Ok(unit), Ok(model)) => unit@ == model,
            (Err(failure), Err(model)) => failure@ == model,
            _ => false,
        },
{
    let location = match executable {
        Some(location) => location,
        None => {
            return Err(
                CliError::new(
                    "service_executable_error",
                    "could not resolve the current executable",
                ),
            );
        },
    };
    let escaped = match escape_systemd_exec_path(location) {
        Ok(escaped) => escaped,
        Err(message) => {
            let whole = text::joined(
                "current executable cannot be represented safely: ",
                message.as_str(),
            );
            return Err(CliError::new("service_executable_error", whole.as_str()));
        },
    };
    let head = text::joined(
        MANAGED_MARKER,
        "[Unit]\nDescription=Glimse visual output daemon\n\n[Service]\nType=simple\nExecStart=\"",
    );
    Ok(
        text::joined3(
            head.as_str(),
            escaped.as_str(),
            "\" daemon\nRestart=on-failure\nRestartSec=2s\nUMask=0077\n\n[Install]\nWantedBy=default.target\n",
        ),
    )
}

// ---- whether the unit is Glimse's own ----

/// What stands at the unit's path.
#[derive(Debug, Clone, Copy, PartialEq, Eq, Structural)]
pub enum UnitEntry {
    Missing,
    /// The path could not be looked at.
    Unknown,
    Found { regular: bool, len: u64 },
}

/// The failure to look at the unit.
pub open spec fn inspection_failure() -> CliErrorModel {
    error::plain("service_filesystem_error"@, "could not inspect the service unit"@)
}

/// The failure that the unit is not Glimse's own.
pub open spec fn unmanaged_failure() -> CliErrorModel {
    error::plain(
        "service_unit_unmanaged"@,
        "glim.service exists but is not a Glimse-managed unit"@,
    )
}

fn unmanaged_error() -> (failure: CliError)
    ensures
        failure@ == unmanaged_failure(),
{
    CliError::new("service_unit_unmanaged", "glim.service exists but is not a Glimse-managed unit")
}

/// Whether anything stands at the unit's path.
pub fn unit_entry_exists(entry: UnitEntry) -> (result: Result<bool, CliError>)
    ensures
        match result {
            Ok(exists) => entry != UnitEntry::Unknown && exists == (entry != UnitEntry::Missing),
            Err(failure) => entry == UnitEntry::Unknown && failure@ == inspection_failure(),
        },
{
    match entry {
        UnitEntry::Missing => Ok(false),
        UnitEntry::Unknown => Err(
            CliError::new("service_filesystem_error", "could not inspect the service unit"),
        ),
        UnitEntry::Found { .. } => Ok(true),
    }
}

/// What forbids to read the unit: only a regular file within the bound can be Glimse's own.
pub open spec fn entry_fault(entry: UnitEntry) -> Option<CliErrorModel> {
    match entry {
        UnitEntry::Missing => Some(
            error::plain("service_not_installed"@, "the managed Glimse service is not installed"@),
        ),
        UnitEntry::Unknown => Some(inspection_failure()),
        UnitEntry::Found { regular, len } => if !regular || len > MAX_UNIT_BYTES {
            Some(unmanaged_failure())
        } else {
            None
        },
    }
}

/// Checks what stands at the unit's path before it is read.
pub fn check_unit_entry(entry: UnitEntry) -> (result: Result<(), CliError>)
    ensures
        match result {
            Ok(_) => entry_fault(entry) is None,
            Err(failure) => entry_fault(entry) == Some(failure@),
        },
{
    match entry {
        UnitEntry::Missing => Err(
            CliError::new("service_not_installed", "the managed Glimse service is not installed"),
        ),
        UnitEntry::Unknown => Err(
            CliError::new("service_filesystem_error", "could not inspect the service unit"),
        ),
        UnitEntry::Found { regular, len } => {
            if !regular || len > MAX_UNIT_BYTES {
                Err(unmanaged_error())
            } else {
                Ok(())
            }
        },
    }
}

/// Whether the bytes are those of a unit that Glimse manages.
pub open spec fn is_managed(contents: Seq<u8>) -> bool {
    contents.len() <= MAX_UNIT_BYTES && bytes::has_prefix(contents, encode_utf8(MANAGED_MARKER@))
}

/// Checks that the bytes are those of a unit that Glimse manages.
pub fn check_unit_contents(contents: &[u8]) -> (result: Result<(), CliError>)
    ensures
        match result {
            Ok(_) => is_managed(contents@),
            Err(failure) => !is_managed(contents@) && failure@ == unmanaged_failure(),
        },
{
    if contents.len() as u64 > MAX_UNIT_BYTES || !bytes::starts_with(
        contents,
        MANAGED_MARKER.as_bytes(),
    ) {
        Err(unmanaged_error())
    } else {
        Ok(())
    }
}

proof fn lemma_encoded_prefix(a: Seq<char>, b: Seq<char>)
    ensures
        encode_utf8(a + b) == encode_utf8(a) + encode_utf8(b),
    decreases a.len(),
{
    if a.len() == 0 {
        assert(a + b =~= b);
        assert(encode_utf8(a) + encode_utf8(b) =~= encode_utf8(b));
    } else {
        assert((a + b).drop_first() =~= a.drop_first() + b);
        assert((a + b)[0] == a[0]);
        lemma_encoded_prefix(a.drop_first(), b);
        assert(encode_utf8(a + b) =~= encode_utf8(a) + encode_utf8(b));
    }
}

/// A unit that Glimse writes is one that it manages, as long as it fits.
pub proof fn law_rendered_units_are_managed(escaped: Seq<char>)
    requires
        encode_utf8(unit_text(escaped)).len() <= MAX_UNIT_BYTES,
    ensures
        is_managed(encode_utf8(unit_text(escaped))),
{
    let head = MANAGED_MARKER@;
    let rest =
        "[Unit]\nDescription=Glimse visual output daemon\n\n[Service]\nType=simple\nExecStart=\""@
        + escaped
        + "\" daemon\nRestart=on-failure\nRestartSec=2s\nUMask=0077\n\n[Install]\nWantedBy=default.target\n"@;
    assert(unit_text(escaped) =~= head + rest);
    lemma_encoded_prefix(head, rest);
    let whole = encode_utf8(head) + encode_utf8(rest);
    assert(whole.subrange(0, encode_utf8(head).len() as int) =~= encode_utf8(head));
}

} // verus!

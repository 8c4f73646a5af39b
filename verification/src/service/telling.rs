//! What the service commands read and tell: the unit's text and place, the state that systemd shows,
//! the failures of `systemctl`, and the reports.
use vstd::prelude::*;
use vstd::utf8::*;
use crate::bytes;
use crate::details::ValueModel;
use crate::number;
use crate::path;
use crate::service::control;
use crate::service::control::{ShownModel, SystemctlEnd};
use crate::service::operation;
use crate::service::operation::OutcomeModel;
use crate::service::unit;
use crate::service::unit::UnitEntry;
use crate::service::write::{WriteAnswer, WriteStep};
use crate::text;

verus! {

// ---- the unit ----

/// The unit runs the executable with the word `daemon`, starts it again two seconds after a failure,
/// keeps its files to the user, and belongs to the user's default target.
pub proof fn law_units_run_the_daemon(escaped: Seq<char>)
    ensures
        unit::unit_text(escaped) == "# Managed by Glimse. Do not edit.\n"@
            + "[Unit]\nDescription=Glimse visual output daemon\n\n[Service]\nType=simple\nExecStart=\""@
            + escaped
            + "\" daemon\nRestart=on-failure\nRestartSec=2s\nUMask=0077\n\n[Install]\nWantedBy=default.target\n"@,
{
}

/// A unit is rendered for the path of the executable exactly where that is known, is text, starts at
/// the root, and holds neither quotes nor backslashes nor control characters.
pub proof fn law_which_executables_are_run(executable: Option<Seq<u8>>)
    ensures
        unit::rendered_unit(executable) is Ok <==> {
            &&& executable is Some
            &&& valid_utf8(executable->0)
            &&& executable->0.len() > 0 && executable->0[0] == 0x2f
            &&& forall|i: int|
                0 <= i < decode_utf8(executable->0).len() ==> ({
                    let c = #[trigger] decode_utf8(executable->0)[i];
                    c != '\'' && c != '"' && c != '\\' && !text::is_control(c)
                })
        },
        unit::rendered_unit(executable) matches Ok(content) ==> content == unit::unit_text(
            unit::escaped_token(decode_utf8(executable->0))->Ok_0,
        ),
        unit::rendered_unit(executable) matches Err(failure) ==> failure.code
            == "service_executable_error"@,
{
    if executable is Some && valid_utf8(executable->0) {
        let s = decode_utf8(executable->0);
        unit::law_which_paths_are_escaped(s);
        if unit::rendered_unit(executable) is Ok {
            assert forall|i: int| 0 <= i < s.len() implies ({
                let c = #[trigger] s[i];
                c != '\'' && c != '"' && c != '\\' && !text::is_control(c)
            }) by {
                assert(!unit::is_quoting(s[i]));
            }
        }
        if forall|i: int|
            0 <= i < s.len() ==> ({
                let c = #[trigger] s[i];
                c != '\'' && c != '"' && c != '\\' && !text::is_control(c)
            }) {
            assert forall|i: int| 0 <= i < s.len() implies !unit::is_quoting(#[trigger] s[i])
                && !text::is_control(s[i]) by {}
        }
    }
}

/// A path without percent signs that can be escaped stands in the unit as it is.
pub proof fn law_plain_paths_stand_as_they_are(s: Seq<char>)
    requires
        unit::escaped_token(s) is Ok,
        !s.contains('%'),
    ensures
        unit::escaped_token(s) == Ok::<Seq<char>, Seq<char>>(s),
    decreases s.len(),
{
    if s.len() > 0 {
        let rest = s.drop_first();
        assert(s.contains(s[0]));
        assert(!rest.contains('%')) by {
            if rest.contains('%') {
                let i = choose|i: int| 0 <= i < rest.len() && rest[i] == '%';
                assert(s[i + 1] == '%');
            }
        }
        law_plain_paths_stand_as_they_are(rest);
        assert(seq![s[0]] + rest =~= s);
    } else {
        assert(s =~= Seq::<char>::empty());
    }
}

proof fn lemma_below(base: Seq<u8>, name: Seq<char>, whole: Seq<char>)
    requires
        whole == seq!['/'] + name,
    ensures
        base.len() > 0 && base.last() != 0x2f ==> path::below(base, encode_utf8(name)) == base
            + encode_utf8(whole),
{
    assert(whole.drop_first() =~= name);
    assert(is_ascii_chars(seq!['/']));
    is_ascii_chars_encode_utf8(seq!['/']);
    assert(seq!['/'].drop_first() =~= Seq::<char>::empty());
    reveal_with_fuel(encode_utf8, 2);
    assert(encode_utf8(seq!['/']) =~= seq![0x2fu8]);
    assert(encode_utf8(whole) =~= seq![0x2fu8] + encode_utf8(name));
    assert(base.push(0x2f) + encode_utf8(name) =~= base + (seq![0x2fu8] + encode_utf8(name)));
}

/// The unit stands among the user's own units: at `systemd/user/glim.service` of the configuration
/// directory, which is that of XDG where it is usable and else `.config` of the home directory.
pub proof fn law_the_unit_is_the_users(xdg_config_home: Option<Seq<u8>>, home: Option<Seq<u8>>)
    ensures
        ({
            let place = unit::unit_place(xdg_config_home, home);
            let own = xdg_config_home matches Some(base) && path::is_absolute(base) && valid_utf8(base);
            let house = home matches Some(base) && path::is_absolute(base) && valid_utf8(base);
            &&& own && xdg_config_home->0.last() != 0x2f ==> place == Some(
                xdg_config_home->0 + encode_utf8("/systemd/user"@) + encode_utf8("/glim.service"@),
            )
            &&& !own && house && home->0.last() != 0x2f ==> place == Some(
                home->0 + encode_utf8("/.config"@) + encode_utf8("/systemd/user"@) + encode_utf8(
                    "/glim.service"@,
                ),
            )
            &&& !own && !house ==> place is None
        }),
{
    reveal_strlit("systemd/user");
    reveal_strlit("/systemd/user");
    reveal_strlit("glim.service");
    reveal_strlit("/glim.service");
    reveal_strlit(".config");
    reveal_strlit("/.config");
    assert("/systemd/user"@ =~= seq!['/'] + "systemd/user"@);
    assert("/glim.service"@ =~= seq!['/'] + "glim.service"@);
    assert("/.config"@ =~= seq!['/'] + ".config"@);
    is_ascii_chars_encode_utf8("/systemd/user"@);
    is_ascii_chars_encode_utf8("/.config"@);
    let own = xdg_config_home->0;
    lemma_below(own, "systemd/user"@, "/systemd/user"@);
    let first = own + encode_utf8("/systemd/user"@);
    assert(first.last() == 'r' as u8);
    lemma_below(first, "glim.service"@, "/glim.service"@);
    let house = home->0;
    lemma_below(house, ".config"@, "/.config"@);
    let inner = house + encode_utf8("/.config"@);
    assert(inner.last() == 'g' as u8);
    lemma_below(inner, "systemd/user"@, "/systemd/user"@);
    let second = inner + encode_utf8("/systemd/user"@);
    assert(second.last() == 'r' as u8);
    lemma_below(second, "glim.service"@, "/glim.service"@);
}

/// Only a regular file of at most 64 KiB that starts with the marker is a unit of Glimse's own.
pub proof fn law_which_units_are_managed(entry: UnitEntry, contents: Seq<u8>)
    ensures
        unit::entry_fault(entry) is None <==> (entry matches UnitEntry::Found { regular, len }
            && regular && len <= 64 * 1024),
        entry == UnitEntry::Missing ==> unit::entry_fault(entry)->0.code == "service_not_installed"@,
        entry == UnitEntry::Unknown ==> unit::entry_fault(entry)->0.code
            == "service_filesystem_error"@,
        entry is Found && unit::entry_fault(entry) is Some ==> unit::entry_fault(entry)->0.code
            == "service_unit_unmanaged"@,
        unit::is_managed(contents) <==> contents.len() <= 64 * 1024 && bytes::has_prefix(
            contents,
            encode_utf8("# Managed by Glimse. Do not edit.\n"@),
        ),
{
}

// ---- systemctl ----

/// Of each stream the first 32 KiB are kept: what is kept never changes, is never longer, and is all
/// of the stream while that fits.
pub proof fn law_the_first_output_is_kept(retained: Seq<u8>, chunk: Seq<u8>)
    requires
        retained.len() <= 32 * 1024,
    ensures
        ({
            let kept = control::retained_after(retained, chunk);
            &&& kept.len() <= 32 * 1024
            &&& kept.take(retained.len() as int) == retained
            &&& kept == (retained + chunk).take(kept.len() as int)
            &&& retained.len() + chunk.len() <= 32 * 1024 ==> kept == retained + chunk
            &&& retained.len() + chunk.len() > 32 * 1024 ==> kept.len() == 32 * 1024
        }),
{
    let kept = control::retained_after(retained, chunk);
    assert(kept.take(retained.len() as int) =~= retained);
    assert(kept =~= (retained + chunk).take(kept.len() as int));
    if retained.len() + chunk.len() == 32 * 1024 {
        assert(chunk.take(chunk.len() as int) =~= chunk);
    }
}

/// A run of `systemctl` gives its output exactly where it ended well and all of its output was kept;
/// otherwise it is told how it failed, in which operation and with which exit code.
pub proof fn law_failed_calls_are_told(operation: Seq<char>, end: SystemctlEnd)
    ensures
        ({
            let outcome = control::systemctl_outcome(operation, end);
            &&& outcome is Ok <==> (end matches SystemctlEnd::Finished { oversized, success, .. }
                && success && !oversized)
            &&& end matches SystemctlEnd::Finished { stdout, .. } ==> (outcome matches Ok(output)
                ==> output == stdout@)
            &&& outcome matches Err(failure) ==> {
                &&& failure.details.len() == 2
                &&& failure.details[0] == ("operation"@, ValueModel::Text(operation))
                &&& failure.details[1].0 == "exit_code"@
                &&& end matches SystemctlEnd::Finished { exit_code, .. } ==> failure.details[1].1 == (
                match exit_code {
                    Some(code) => ValueModel::Number(code as int),
                    None => ValueModel::Json("null"@),
                })
                &&& end is NotStarted ==> failure.code == "systemctl_spawn_failed"@
                &&& end is TimedOut ==> failure.code == "systemctl_timeout"@
                &&& end is NotWaitedFor ==> failure.code == "systemctl_wait_failed"@
                &&& end is OutputLost ==> failure.code == "systemctl_output_error"@
                &&& end matches SystemctlEnd::Finished { oversized, .. } ==> failure.code == (
                if oversized {
                    "systemctl_output_too_large"@
                } else {
                    "systemctl_failed"@
                })
            }
        }),
{
}

proof fn lemma_equals(front: Seq<char>, back: Seq<char>, start: int)
    requires
        0 <= start <= front.len(),
        !front.contains('='),
    ensures
        text::found_from(front + seq!['='] + back, seq!['='], start) == Some(front.len() as int),
    decreases front.len() - start,
{
    let whole = front + seq!['='] + back;
    if start < front.len() {
        assert(whole.subrange(start, start + 1)[0] == front[start]);
        assert(front.contains(front[start]));
        lemma_equals(front, back, start + 1);
    } else {
        assert(whole.subrange(start, start + 1) =~= seq!['=']);
    }
}

proof fn lemma_line(name: Seq<char>, value: Seq<char>)
    requires
        !name.contains('='),
    ensures
        control::equals_sign(name + seq!['='] + value) == Some(name.len() as int),
        (name + seq!['='] + value).take(name.len() as int) == name,
        (name + seq!['='] + value).skip(name.len() as int + 1) == value,
{
    lemma_equals(name, value, 0);
    assert((name + seq!['='] + value).take(name.len() as int) =~= name);
    assert((name + seq!['='] + value).skip(name.len() as int + 1) =~= value);
}

/// Each line that systemd shows sets the property that it names, once, to a state of letters, digits,
/// hyphens and underscores; anything else is malformed.
pub proof fn law_shown_lines_set_their_property(shown: ShownModel, value: Seq<char>)
    ensures
        ({
            let load = control::shown_with(shown, "LoadState"@ + seq!['='] + value);
            let file = control::shown_with(shown, "UnitFileState"@ + seq!['='] + value);
            let active = control::shown_with(shown, "ActiveState"@ + seq!['='] + value);
            &&& control::shown_with(shown, Seq::empty()) == Some(shown)
            &&& control::is_safe_state(value) && shown.load_state is None ==> load == Some(
                ShownModel { load_state: Some(value), ..shown },
            )
            &&& control::is_safe_state(value) && shown.unit_file_state is None ==> file == Some(
                ShownModel { unit_file_state: Some(value), ..shown },
            )
            &&& control::is_safe_state(value) && shown.active_state is None ==> active == Some(
                ShownModel { active_state: Some(value), ..shown },
            )
            &&& !control::is_safe_state(value) || shown.load_state is Some ==> load is None
            &&& !control::is_safe_state(value) || shown.unit_file_state is Some ==> file is None
            &&& !control::is_safe_state(value) || shown.active_state is Some ==> active is None
        }),
{
    reveal_strlit("LoadState");
    reveal_strlit("UnitFileState");
    reveal_strlit("ActiveState");
    assert("LoadState"@.len() == 9 && "UnitFileState"@.len() == 13 && "ActiveState"@.len() == 11);
    lemma_line("LoadState"@, value);
    lemma_line("UnitFileState"@, value);
    lemma_line("ActiveState"@, value);
}

/// A state is 1 to 128 letters, digits, hyphens and underscores.
pub proof fn law_states_are_plain_words(value: Seq<char>)
    ensures
        control::is_safe_state(value) <==> {
            &&& 1 <= value.len() <= 128
            &&& forall|i: int|
                0 <= i < value.len() ==> ({
                    let c = #[trigger] value[i];
                    'a' <= c <= 'z' || 'A' <= c <= 'Z' || '0' <= c <= '9' || c == '-' || c == '_'
                })
        },
{
    if control::is_safe_state(value) {
        assert forall|i: int| 0 <= i < value.len() implies ({
            let c = #[trigger] value[i];
            'a' <= c <= 'z' || 'A' <= c <= 'Z' || '0' <= c <= '9' || c == '-' || c == '_'
        }) by {
            assert(text::is_ascii_alphanumeric(value[i]) || value[i] == '-' || value[i] == '_');
        }
    }
}

// ---- writing ----

/// The unit is written beside its place under a name of its own, filled, and only then put in place;
/// up to 100 names are tried, and a file that could not be filled is removed.
pub proof fn law_units_are_written_in_order(attempt: u32, clears: bool)
    requires
        attempt < 100,
    ensures
        crate::service::write::step_after(WriteStep::Create { attempt }, WriteAnswer::Done, clears) == (
        WriteStep::Fill { attempt }),
        crate::service::write::step_after(WriteStep::Fill { attempt }, WriteAnswer::Done, clears) == (
        WriteStep::Rename { attempt }),
        crate::service::write::step_after(WriteStep::Rename { attempt }, WriteAnswer::Done, clears)
            == WriteStep::Written,
        attempt < 99 ==> crate::service::write::step_after(
            WriteStep::Create { attempt },
            WriteAnswer::Exists,
            clears,
        ) == (WriteStep::Create { attempt: (attempt + 1) as u32 }),
        attempt == 99 ==> crate::service::write::step_after(
            WriteStep::Create { attempt },
            WriteAnswer::Exists,
            clears,
        ) == WriteStep::NoTemporary,
        crate::service::write::step_after(WriteStep::Create { attempt }, WriteAnswer::Failed, clears)
            == WriteStep::NoTemporary,
        crate::service::write::step_after(WriteStep::Fill { attempt }, WriteAnswer::Failed, clears) == (
        WriteStep::Remove { attempt }),
        crate::service::write::step_after(WriteStep::Rename { attempt }, WriteAnswer::Failed, true) == (
        WriteStep::Remove { attempt }),
        crate::service::write::step_after(WriteStep::Remove { attempt }, WriteAnswer::Done, clears)
            == WriteStep::NotWritten,
        crate::service::write::write_failure(WriteStep::Written) is None,
        crate::service::write::write_failure(WriteStep::NoTemporary) is Some,
        crate::service::write::write_failure(WriteStep::NotWritten) is Some,
{
}

/// A temporary name is hidden, and names the process and the attempt.
pub proof fn law_temporary_names_are_hidden(process_id: u32, attempt: u32)
    ensures
        crate::service::write::temporary_name(process_id, attempt) == ".glim.service."@ + number::decimal(
            process_id as nat,
        ) + "."@ + number::decimal(attempt as nat) + ".tmp"@,
        crate::service::write::temporary_name(process_id, attempt)[0] == '.',
{
    reveal_strlit(".glim.service.");
    assert(".glim.service."@[0] == '.');
}

// ---- reports ----

/// A report says whether the service is installed, where its unit stands, and what was done or found:
/// the action by its name, or each state under its own name.
pub proof fn law_reports_tell_what_was_done(outcome: OutcomeModel, unit_path: Seq<char>)
    ensures
        ({
            let report = operation::report_of(outcome, unit_path);
            &&& report[0] == (
                "installed"@,
                ValueModel::Flag(!(outcome is Absent || outcome is Uninstalled)),
            )
            &&& report.last() == ("unit_path"@, ValueModel::Text(unit_path))
            &&& outcome is Installed ==> report.contains(("enabled"@, ValueModel::Flag(true)))
            &&& outcome is Started ==> report.contains(("action"@, ValueModel::Text("start"@)))
            &&& outcome is Stopped ==> report.contains(("action"@, ValueModel::Text("stop"@)))
            &&& outcome matches OutcomeModel::State { load_state, unit_file_state, active_state } ==> {
                &&& report.contains(("load_state"@, ValueModel::Text(load_state)))
                &&& report.contains(("unit_file_state"@, ValueModel::Text(unit_file_state)))
                &&& report.contains(("active_state"@, ValueModel::Text(active_state)))
            }
            &&& outcome is Absent ==> report.contains(
                ("unit_file_state"@, ValueModel::Text("not-found"@)),
            ) && report.contains(("active_state"@, ValueModel::Text("inactive"@)))
        }),
{
    let report = operation::report_of(outcome, unit_path);
    match outcome {
        OutcomeModel::Installed => {
            assert(report[1] == ("enabled"@, ValueModel::Flag(true)));
        },
        OutcomeModel::Started => {
            assert(report[1] == ("action"@, ValueModel::Text("start"@)));
        },
        OutcomeModel::Stopped => {
            assert(report[1] == ("action"@, ValueModel::Text("stop"@)));
        },
        OutcomeModel::State { load_state, unit_file_state, active_state } => {
            assert(report[1] == ("unit_file_state"@, ValueModel::Text(unit_file_state)));
            assert(report[2] == ("active_state"@, ValueModel::Text(active_state)));
            assert(report[3] == ("load_state"@, ValueModel::Text(load_state)));
        },
        OutcomeModel::Absent => {
            assert(report[1] == ("unit_file_state"@, ValueModel::Text("not-found"@)));
            assert(report[2] == ("active_state"@, ValueModel::Text("inactive"@)));
        },
        OutcomeModel::Uninstalled => {},
    }
}

} // verus!

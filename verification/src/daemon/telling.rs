//! What the daemon's log tells, and when sessions go.
use vstd::prelude::*;
use vstd::utf8::*;
use crate::daemon::cleanup;
use crate::daemon::cleanup::CleanupFault;
use crate::logging;
use crate::logging::{LogLevel, LogModel};
use crate::storage::lifecycle;
use crate::storage::lifecycle::LifecycleReport;

verus! {

proof fn lemma_levels_differ()
    ensures
        "error"@.len() == 5,
        "warn"@.len() == 4 && "warn"@[0] == 'w',
        "info"@.len() == 4 && "info"@[0] == 'i',
{
    reveal_strlit("error");
    reveal_strlit("warn");
    reveal_strlit("info");
}

/// A level is named by its word and read back from it; where none is named everything is logged, and no
/// other word names one.
pub proof fn law_levels_are_named_by_their_words(value: Seq<u8>)
    ensures
        logging::named_level(None) == Some(LogLevel::Info),
        valid_utf8(value) && decode_utf8(value) == "error"@ ==> logging::named_level(Some(value)) == Some(
            LogLevel::Error,
        ),
        valid_utf8(value) && decode_utf8(value) == "warn"@ ==> logging::named_level(Some(value)) == Some(
            LogLevel::Warn,
        ),
        valid_utf8(value) && decode_utf8(value) == "info"@ ==> logging::named_level(Some(value)) == Some(
            LogLevel::Info,
        ),
        logging::named_level(Some(value)) matches Some(level) ==> decode_utf8(value)
            == logging::level_name(level),
        logging::level_name(LogLevel::Error) == "error"@,
        logging::level_name(LogLevel::Warn) == "warn"@,
        logging::level_name(LogLevel::Info) == "info"@,
{
    lemma_levels_differ();
}

/// A log of errors keeps errors, one of warnings errors and warnings, and one of everything everything.
pub proof fn law_levels_keep_what_they_say()
    ensures
        logging::keeps(LogLevel::Error, LogLevel::Error),
        !logging::keeps(LogLevel::Error, LogLevel::Warn),
        !logging::keeps(LogLevel::Error, LogLevel::Info),
        logging::keeps(LogLevel::Warn, LogLevel::Error),
        logging::keeps(LogLevel::Warn, LogLevel::Warn),
        !logging::keeps(LogLevel::Warn, LogLevel::Info),
        logging::keeps(LogLevel::Info, LogLevel::Error),
        logging::keeps(LogLevel::Info, LogLevel::Warn),
        logging::keeps(LogLevel::Info, LogLevel::Info),
{
}

/// A line starts with the schema's version, the time, the level and the event, and then has the event's
/// own fields in their order: counts as they are, and texts up to 256 bytes.
pub proof fn law_lines_tell_the_event(
    level: LogLevel,
    event: Seq<char>,
    timestamp: u64,
    fields: Seq<(Seq<char>, LogModel)>,
    i: int,
)
    requires
        0 <= i < fields.len(),
    ensures
        ({
            let line = logging::line_fields(level, event, timestamp, fields);
            &&& line.len() == fields.len() + 4
            &&& line[0] == ("schema_version"@, LogModel::Count(1))
            &&& line[1] == ("timestamp"@, LogModel::Count(timestamp))
            &&& line[2].0 == "level"@
            &&& level == LogLevel::Error ==> line[2].1 == LogModel::Text("error"@)
            &&& level == LogLevel::Warn ==> line[2].1 == LogModel::Text("warn"@)
            &&& level == LogLevel::Info ==> line[2].1 == LogModel::Text("info"@)
            &&& line[3].0 == "event"@
            &&& encode_utf8(event).len() <= 256 ==> line[3].1 == LogModel::Text(event)
            &&& line[i + 4].0 == fields[i].0
            &&& fields[i].1 matches LogModel::Count(count) ==> line[i + 4].1 == LogModel::Count(count)
            &&& fields[i].1 matches LogModel::Text(value) ==> (encode_utf8(value).len() <= 256
                ==> line[i + 4].1 == LogModel::Text(value))
        }),
{
    assert(event.take(event.len() as int) =~= event);
    if event.len() == 0 {
        assert(event.take(0) =~= event);
    }
    if let LogModel::Text(value) = fields[i].1 {
        assert(value.take(value.len() as int) =~= value);
        if value.len() == 0 {
            assert(value.take(0) =~= value);
        }
    }
}

/// A line of at most 4096 bytes with its end is written as it is.
pub proof fn law_lines_are_written_as_they_are(encoded: Seq<u8>)
    ensures
        encoded.len() + 1 <= 4096 ==> logging::line_of(Some(encoded)) == encoded.push(10),
        encoded.len() + 1 > 4096 ==> logging::line_of(Some(encoded)) == logging::line_of(None),
        logging::line_of(None) == encode_utf8(
            "{\"schema_version\":1,\"timestamp\":0,\"level\":\"error\",\"event\":\"logger_error\"}"@,
        ).push(10),
{
}

/// The event of a finished cleanup tells what set it off, and each count under its own name.
pub proof fn law_cleanups_tell_their_counts(trigger: Seq<char>, report: LifecycleReport)
    ensures
        ({
            let fields = cleanup::lifecycle_models(trigger, report);
            &&& fields.len() == 9
            &&& fields[0] == ("trigger"@, LogModel::Text(trigger))
            &&& fields[1] == ("sessions_deleted"@, LogModel::Count(report.sessions_deleted))
            &&& fields[2] == ("projects_deleted"@, LogModel::Count(report.projects_deleted))
            &&& fields[3] == ("posts_deleted"@, LogModel::Count(report.posts_deleted))
            &&& fields[4] == ("post_files_deleted"@, LogModel::Count(report.post_files_deleted))
            &&& fields[5] == ("support_assets_deleted"@, LogModel::Count(report.support_assets_deleted))
            &&& fields[6] == (
                "blob_references_deleted"@,
                LogModel::Count(report.blob_references_deleted),
            )
            &&& fields[7] == ("blobs_queued"@, LogModel::Count(report.blobs_queued))
            &&& fields[8] == ("blobs_deleted"@, LogModel::Count(report.blobs_deleted))
        }),
        cleanup::fault_category(CleanupFault::Operation) == "cleanup_operation_failed"@,
        cleanup::fault_category(CleanupFault::Worker) == "cleanup_worker_failed"@,
{
}

/// Sessions go after seven days without activity, which is looked at every hour.
pub proof fn law_sessions_go_after_a_week(last_activity_at: i64, cutoff: i64)
    ensures
        cleanup::RETENTION_SECONDS == 7 * 24 * 60 * 60,
        cleanup::CLEANUP_INTERVAL_SECONDS == 60 * 60,
        lifecycle::is_due(last_activity_at, cutoff) <==> last_activity_at <= cutoff,
{
}

} // verus!

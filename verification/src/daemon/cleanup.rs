//! The purge of inactive sessions: when it is due, and how it is logged.
use vstd::prelude::*;
use crate::logging;
use crate::logging::{LogField, LogLevel, Logger};
use crate::storage::lifecycle;
use crate::storage::lifecycle::LifecycleReport;
use crate::text;

verus! {

/// How long a session may be inactive: seven days.
pub const RETENTION_SECONDS: u64 = 604_800;

/// How often inactive sessions are purged: every hour.
pub const CLEANUP_INTERVAL_SECONDS: u64 = 3600;

/// The fields of the event that tells of a finished cleanup: what set it off, and the counts.
pub open spec fn lifecycle_models(trigger: Seq<char>, report: LifecycleReport) -> Seq<
    (Seq<char>, logging::LogModel),
> {
    seq![
        ("trigger"@, logging::LogModel::Text(trigger)),
        ("sessions_deleted"@, logging::LogModel::Count(report.sessions_deleted)),
        ("projects_deleted"@, logging::LogModel::Count(report.projects_deleted)),
        ("posts_deleted"@, logging::LogModel::Count(report.posts_deleted)),
        ("post_files_deleted"@, logging::LogModel::Count(report.post_files_deleted)),
        ("support_assets_deleted"@, logging::LogModel::Count(report.support_assets_deleted)),
        ("blob_references_deleted"@, logging::LogModel::Count(report.blob_references_deleted)),
        ("blobs_queued"@, logging::LogModel::Count(report.blobs_queued)),
        ("blobs_deleted"@, logging::LogModel::Count(report.blobs_deleted)),
    ]
}

/// The fields of the event that tells of a finished cleanup.
pub fn lifecycle_fields(trigger: &str, report: &LifecycleReport) -> (fields: Vec<LogField>)
    ensures
        logging::models(fields@) == lifecycle_models(trigger@, *report),
{
    let mut fields: Vec<LogField> = Vec::new();
    fields.push(logging::text_field("trigger", trigger));
    fields.push(logging::count_field("sessions_deleted", report.sessions_deleted));
    fields.push(logging::count_field("projects_deleted", report.projects_deleted));
    fields.push(logging::count_field("posts_deleted", report.posts_deleted));
    fields.push(logging::count_field("post_files_deleted", report.post_files_deleted));
    fields.push(logging::count_field("support_assets_deleted", report.support_assets_deleted));
    fields.push(logging::count_field("blob_references_deleted", report.blob_references_deleted));
    fields.push(logging::count_field("blobs_queued", report.blobs_queued));
    fields.push(logging::count_field("blobs_deleted", report.blobs_deleted));
    assert(logging::models(fields@) =~= lifecycle_models(trigger@, *report));
    fields
}

/// The line that tells of a finished cleanup, where the log keeps it.
pub fn log_cleanup_completed(
    logger: &Logger,
    trigger: &str,
    report: &LifecycleReport,
    seconds: Option<u64>,
) -> (line: Option<Vec<u8>>)
    ensures
        match line {
            Some(bytes) => logger.level == LogLevel::Info && bytes@ == logging::line_of(
                logging::json_object(
                    logging::line_fields(
                        LogLevel::Info,
                        "cleanup_completed"@,
                        match seconds {
                            Some(value) => value,
                            None => 0,
                        },
                        lifecycle_models(trigger@, *report),
                    ),
                ),
            ),
            None => logger.level != LogLevel::Info,
        },
{
    let fields = lifecycle_fields(trigger, report);
    logger.emit(LogLevel::Info, "cleanup_completed", &fields, seconds)
}

/// Why a purge did not come to its end.
#[derive(Debug, Clone, Copy, PartialEq, Eq, Structural)]
pub enum CleanupFault {
    /// The store could not be opened or purged.
    Operation,
    /// The task that purges went away.
    Worker,
}

/// The category that a failed cleanup is logged under.
pub open spec fn fault_category(fault: CleanupFault) -> Seq<char> {
    match fault {
        CleanupFault::Operation => "cleanup_operation_failed"@,
        CleanupFault::Worker => "cleanup_worker_failed"@,
    }
}

/// The line that tells of a failed cleanup: an error, which every log keeps.
pub fn log_cleanup_failed(
    logger: &Logger,
    trigger: &str,
    fault: CleanupFault,
    seconds: Option<u64>,
) -> (line: Option<Vec<u8>>)
    ensures
        line matches Some(bytes) && bytes@ == logging::line_of(
            logging::json_object(
                logging::line_fields(
                    LogLevel::Error,
                    "cleanup_failed"@,
                    match seconds {
                        Some(value) => value,
                        None => 0,
                    },
                    seq![
                        ("trigger"@, logging::LogModel::Text(trigger@)),
                        ("category"@, logging::LogModel::Text(fault_category(fault))),
                    ],
                ),
            ),
        ),
{
    let category = match fault {
        CleanupFault::Operation => "cleanup_operation_failed",
        CleanupFault::Worker => "cleanup_worker_failed",
    };
    let mut fields: Vec<LogField> = Vec::new();
    fields.push(logging::text_field("trigger", trigger));
    fields.push(logging::text_field("category", category));
    assert(logging::models(fields@) =~= seq![
        ("trigger"@, logging::LogModel::Text(trigger@)),
        ("category"@, logging::LogModel::Text(fault_category(fault))),
    ]);
    logger.emit(LogLevel::Error, "cleanup_failed", &fields, seconds)
}

/// The latest last activity at which a session is due: seven days before now.
pub fn cleanup_cutoff(seconds_since_epoch: Option<u64>) -> (result: Result<i64, String>)
    ensures
        match result {
            Ok(cutoff) => seconds_since_epoch matches Some(now) && now >= RETENTION_SECONDS
                && cutoff == now - RETENTION_SECONDS,
            Err(message) => match seconds_since_epoch {
                None => message@ == "system clock is before the Unix epoch"@,
                Some(now) => if now < RETENTION_SECONDS {
                    message@ == "system clock predates the seven-day retention window"@
                } else {
                    now - RETENTION_SECONDS > i64::MAX && message@
                        == "system clock exceeds signed Unix seconds"@
                },
            },
        },
{
    let now: u64 = match seconds_since_epoch {
        Some(now) => now,
        None => {
            return Err(text::copy_of("system clock is before the Unix epoch"));
        },
    };
    if now < RETENTION_SECONDS {
        return Err(text::copy_of("system clock predates the seven-day retention window"));
    }
    let cutoff: u64 = now - RETENTION_SECONDS;
    if cutoff > 0x7fff_ffff_ffff_ffff {
        return Err(text::copy_of("system clock exceeds signed Unix seconds"));
    }
    Ok(cutoff as i64)
}

/// A session is due exactly when it has been inactive for seven days or longer.
pub proof fn law_sessions_are_due_after_seven_days(last_activity_at: i64, now: u64, cutoff: i64)
    requires
        now >= RETENTION_SECONDS,
        cutoff == now - RETENTION_SECONDS,
    ensures
        lifecycle::is_due(last_activity_at, cutoff) <==> now - last_activity_at
            >= RETENTION_SECONDS,
{
}

} // verus!

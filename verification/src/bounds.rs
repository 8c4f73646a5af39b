//! How much the program takes, keeps and waits for.
use vstd::prelude::*;
use crate::api::auth;
use crate::api::feed;
use crate::api::manifest;
use crate::api::paths;
use crate::cli::address;
use crate::cli::assets::collection;
use crate::cli::assets::html;
use crate::cli::browser;
use crate::cli::error;
use crate::cli::flags;
use crate::cli::git;
use crate::cli::sending;
use crate::daemon::cleanup;
use crate::daemon::config;
use crate::daemon::credential;
use crate::daemon::resolve;
use crate::daemon::token;
use crate::logging;
use crate::service::control;
use crate::service::unit;
use crate::storage::classification;
use crate::storage::read;
use crate::storage::session;
use crate::storage::staging;

verus! {

/// What is read is bounded: a manifest, a configuration file, a unit, commentary and the start of a
/// file that is classified by 64 KiB, standard input and an answer by 1 MiB, the output of `git` by
/// 8 KiB and of `systemctl` by 32 KiB; and of a token file one byte more than a token has.
pub proof fn law_what_is_read_is_bounded()
    ensures
        manifest::MAX_MANIFEST_BYTES == 64 * 1024,
        config::MAX_CONFIG_BYTES == 64 * 1024,
        unit::MAX_UNIT_BYTES == 64 * 1024,
        flags::MAX_COMMENTARY_BYTES == 64 * 1024,
        classification::PREFIX_LIMIT == 64 * 1024,
        flags::MAX_STDIN_BYTES == 1024 * 1024,
        sending::MAX_RESPONSE_BYTES == 1024 * 1024,
        git::MAX_GIT_OUTPUT_BYTES == 8 * 1024,
        control::MAX_SYSTEMCTL_STREAM_BYTES == 32 * 1024,
        token::MAX_TOKEN_FILE_BYTES == 64 + 1,
{
}

/// What is kept and sent is bounded: uploads by 512 MiB and all sources by 20 GiB unless they are set, a
/// line of the log by 4 KiB and a text in it by 256 bytes.
pub proof fn law_what_is_kept_is_bounded()
    ensures
        config::DEFAULT_MAX_UPLOAD_BYTES == 512 * 1024 * 1024,
        config::DEFAULT_MAX_FINALIZED_BLOB_BYTES == 20 * 1024 * 1024 * 1024,
        logging::MAX_LINE_BYTES == 4 * 1024,
        logging::MAX_STRING_FIELD_BYTES == 256,
{
}

/// A publication has its file and all the support files that a document may depend on as parts; a
/// document may hold twice as many references as parts.
pub proof fn law_parts_cover_support_files()
    ensures
        collection::MAX_SUPPORT_ASSETS == 255,
        manifest::MAX_DECLARED_PARTS == collection::MAX_SUPPORT_ASSETS + 1,
        html::MAX_REFERENCES == 2 * manifest::MAX_DECLARED_PARTS,
        collection::MAX_CSS_RECURSION_DEPTH == 8,
{
}

/// A page holds 20 posts unless another number is asked for, and 100 at most, as many as a feed replays;
/// twice as many capabilities as browser sessions are remembered.
pub proof fn law_pages_and_grants_are_bounded()
    ensures
        read::DEFAULT_PAGE_LIMIT == 20,
        read::MAX_PAGE_LIMIT == 100,
        feed::LIVE_REPLAY_LIMIT == read::MAX_PAGE_LIMIT,
        feed::LIVE_EVENT_CHANNEL_CAPACITY == 256,
        auth::BROWSER_SESSION_LIMIT == 128,
        auth::HTML_CAPABILITY_LIMIT == 2 * auth::BROWSER_SESSION_LIMIT,
{
}

/// Browser sessions last twelve hours and capabilities five minutes; sessions are kept for
/// seven days and looked at every hour; `git` and `systemctl` are waited for two seconds, a browser a
/// tenth of one.
pub proof fn law_how_long_things_last()
    ensures
        auth::BROWSER_SESSION_SECONDS == 12 * 60 * 60,
        auth::HTML_CAPABILITY_SECONDS == 5 * 60,
        cleanup::RETENTION_SECONDS == 7 * 24 * 60 * 60,
        cleanup::CLEANUP_INTERVAL_SECONDS == 60 * 60,
        git::GIT_TIMEOUT_SECONDS == 2,
        control::SYSTEMCTL_TIMEOUT_SECONDS == 2,
        browser::BROWSER_WATCH_MILLISECONDS == 100,
{
}

/// New public IDs are as long as the shortest that a page accepts; their characters are drawn evenly,
/// from bytes below the greatest multiple of 58; and the IDs of projects are those that every browser
/// can count to.
pub proof fn law_ids_fit_their_pages()
    ensures
        session::INITIAL_PUBLIC_ID_LENGTH == 6,
        paths::MIN_PAGE_ID_LENGTH == session::INITIAL_PUBLIC_ID_LENGTH,
        session::PUBLIC_ID_ACCEPTANCE_BOUND % 58 == 0,
        session::PUBLIC_ID_ACCEPTANCE_BOUND + 58 > 256,
        paths::MAX_PAGE_PROJECT_ID == 0x20_0000_0000_0000 - 1,
{
}

/// The versions of what is written, and how often a name is tried.
pub proof fn law_versions_and_attempts()
    ensures
        error::CLI_SCHEMA_VERSION == 1,
        config::CONFIG_SCHEMA_VERSION == 1,
        session::CURRENT_SCHEMA_VERSION == 5,
        staging::MAX_STAGING_NAMES == 16,
        crate::service::write::MAX_TEMPORARY_NAMES == 100,
{
}

/// The command line speaks to the daemon where the daemon listens, unless they are told otherwise: on
/// this machine alone.
pub proof fn law_the_daemon_is_found()
    ensures
        resolve::DEFAULT_BIND@ == "127.0.0.1:3030"@,
        address::DEFAULT_DAEMON_URL@ == "http://"@ + resolve::DEFAULT_BIND@,
        unit::UNIT_NAME@ == "glim.service"@,
{
    reveal_strlit("127.0.0.1:3030");
    reveal_strlit("http://");
    reveal_strlit("http://127.0.0.1:3030");
    assert("http://127.0.0.1:3030"@ =~= "http://"@ + "127.0.0.1:3030"@);
}

/// A token file is read exactly where it is a regular file whose permissions, the last two octal digits
/// of its mode, grant nothing to group and others; such a file is what a new token is written to.
pub proof fn law_which_token_files_are_read(regular: bool, mode: u32)
    ensures
        token::token_file_fault(regular, mode) is None <==> regular && mode % 64 == 0,
        !regular ==> token::token_file_fault(regular, mode)
            == Some("access token path must be a regular non-symlink file"@),
        credential::TOKEN_FILE_MODE % 64 == 0,
        credential::TOKEN_FILE_MODE / 64 == 6,
{
    assert(mode & 0o077 == mode % 64) by (bit_vector);
}

} // verus!

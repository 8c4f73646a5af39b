//! What the words of the command line mean: the commands, the options, and the daemon's answers.
use vstd::prelude::*;
use vstd::utf8::*;
use crate::cli::address;
use crate::cli::address::UrlModel;
use crate::cli::arguments;
use crate::cli::arguments::{CommandModel, ListModel};
use crate::cli::browser;
use crate::cli::browser::BrowserEnd;
use crate::cli::error::CliErrorModel;
use crate::cli::flags;
use crate::cli::flags::InputModel;
use crate::cli::sending;
use crate::cli::sending::{FailureBody, PublicationReply};
use crate::details;
use crate::details::ValueModel;
use crate::number;
use crate::percent;
use crate::storage::session;
use crate::text;

verus! {

proof fn lemma_commands_differ()
    ensures
        "publish"@.len() == 7 && "publish"@[0] == 'p',
        "service"@.len() == 7 && "service"@[0] == 's',
        "status"@.len() == 6 && "status"@[0] == 's',
        "health"@.len() == 6 && "health"@[0] == 'h',
        "show"@.len() == 4 && "show"@[0] == 's',
        "close"@.len() == 5,
        "list"@.len() == 4 && "list"@[0] == 'l',
        "open"@.len() == 4 && "open"@[0] == 'o',
{
    reveal_strlit("publish");
    reveal_strlit("service");
    reveal_strlit("status");
    reveal_strlit("health");
    reveal_strlit("show");
    reveal_strlit("close");
    reveal_strlit("list");
    reveal_strlit("open");
}

/// The whole numbers from one on are read from their decimal form.
proof fn lemma_positive_reads_back(value: i64, name: Seq<char>)
    requires
        value > 0,
    ensures
        arguments::positive_value(number::decimal(value as nat), name) == Ok::<int, CliErrorModel>(
            value as int,
        ),
{
    number::law_signed_decimal_reads_back(value);
}

/// Each command asks the daemon for what it names: `health` for its health, `show` for the post,
/// `close` for the deletion of the session; `open` opens what it is given, `publish` and `service`
/// take their own arguments, and `status` takes none.
pub proof fn law_commands_ask_for_what_they_name(
    arguments: Seq<Seq<char>>,
    argument: Seq<char>,
    id: i64,
)
    requires
        id > 0,
    ensures
        arguments::named_command(seq!["publish"@] + arguments) == Ok::<CommandModel, CliErrorModel>(
            CommandModel::Publish(arguments),
        ),
        arguments::named_command(seq!["service"@] + arguments) == Ok::<CommandModel, CliErrorModel>(
            CommandModel::Service(arguments),
        ),
        arguments::named_command(seq!["status"@]) == Ok::<CommandModel, CliErrorModel>(
            CommandModel::Status,
        ),
        arguments::named_command(seq!["health"@]) == Ok::<CommandModel, CliErrorModel>(
            CommandModel::Get("/api/v1/health"@),
        ),
        arguments::named_command(seq!["show"@, number::decimal(id as nat)]) == Ok::<
            CommandModel,
            CliErrorModel,
        >(CommandModel::Get("/api/v1/posts/"@ + number::decimal(id as nat))),
        arguments::is_public_id(argument) ==> arguments::named_command(seq!["close"@, argument]) == Ok::<
            CommandModel,
            CliErrorModel,
        >(CommandModel::Delete("/api/v1/sessions/"@ + argument)),
        arguments::named_command(seq!["open"@, argument]) == Ok::<CommandModel, CliErrorModel>(
            CommandModel::Open(argument),
        ),
        arguments::named_command(seq!["list"@] + arguments) == match arguments::listed_path(arguments) {
            Ok(path) => Ok(CommandModel::Get(path)),
            Err(failure) => Err(failure),
        },
{
    lemma_commands_differ();
    lemma_positive_reads_back(id, "post ID"@);
    assert((seq!["publish"@] + arguments).skip(1) =~= arguments);
    assert((seq!["service"@] + arguments).skip(1) =~= arguments);
    assert((seq!["list"@] + arguments).skip(1) =~= arguments);
    let show = seq!["show"@, number::decimal(id as nat)];
    assert(show.skip(1)[0] == number::decimal(id as nat));
    let close = seq!["close"@, argument];
    assert(close.skip(1)[0] == argument);
    let open = seq!["open"@, argument];
    assert(open.skip(1)[0] == argument);
}

/// Nothing but these words is a command, and what a command does not take is refused: its failure
/// is one of usage.
pub proof fn law_other_words_are_refused(arguments: Seq<Seq<char>>)
    ensures
        ({
            let found = arguments::named_command(arguments);
            &&& found is Ok ==> arguments.len() > 0 && (arguments[0] == "publish"@ || arguments[0] == "service"@ || arguments[0] == "status"@ || arguments[0] == "health"@ || arguments[0] == "show"@ || arguments[0] == "close"@ || arguments[0] == "list"@ || arguments[0] == "open"@)
            &&& found is Ok && (arguments[0] == "status"@ || arguments[0] == "health"@)
                ==> arguments.len() == 1
            &&& found is Ok && (arguments[0] == "show"@ || arguments[0] == "close"@ || arguments[0]
                == "open"@) ==> arguments.len() == 2
            &&& found is Ok && arguments[0] == "close"@ ==> arguments::is_public_id(arguments[1])
            &&& found is Ok && arguments[0] == "show"@ ==> (number::signed_value(arguments[1]) matches Some(
                id,
            ) && id > 0)
        }),
{
    lemma_commands_differ();
    if arguments.len() == 2 {
        assert(arguments.skip(1)[0] == arguments[1]);
    }
}

proof fn lemma_list_options_differ()
    ensures
        "--global"@.len() == 8 && "--global"@[2] == 'g',
        "--session"@.len() == 9 && "--session"@[2] == 's',
        "--project"@.len() == 9 && "--project"@[2] == 'p',
        "--limit"@.len() == 7,
        "--cursor"@.len() == 8 && "--cursor"@[2] == 'c',
{
    reveal_strlit("--global");
    reveal_strlit("--session");
    reveal_strlit("--project");
    reveal_strlit("--limit");
    reveal_strlit("--cursor");
}

/// The feed that a scope of `list` names: all posts, those of a session, or those of a project.
pub open spec fn scope_of(scope: Seq<Seq<char>>, feed: Seq<char>) -> bool {
    ||| scope == seq!["--global"@] && feed == "/api/v1/posts"@
    ||| exists|id: Seq<char>|
        arguments::is_public_id(id) && scope == seq!["--session"@, id] && feed
            == #[trigger] ("/api/v1/sessions/"@ + id) + "/posts"@
    ||| exists|id: i64|
        id > 0 && scope == seq!["--project"@, #[trigger] number::decimal(id as nat)] && feed
            == "/api/v1/projects/"@ + number::decimal(id as nat) + "/posts"@
}

/// What the options of `list` add, one after the other.
proof fn lemma_list_step(arguments: Seq<Seq<char>>, i: int, options: ListModel)
    requires
        0 <= i < arguments.len(),
    ensures
        arguments[i] == "--global"@ && options.scope is None ==> arguments::list_options(
            arguments,
            i,
            options,
        ) == arguments::list_options(
            arguments,
            i + 1,
            ListModel { scope: Some("/api/v1/posts"@), ..options },
        ),
        i + 1 < arguments.len() && arguments[i] == "--session"@ && options.scope is None
            && arguments::is_public_id(arguments[i + 1]) ==> arguments::list_options(
            arguments,
            i,
            options,
        ) == arguments::list_options(
            arguments,
            i + 2,
            ListModel {
                scope: Some("/api/v1/sessions/"@ + arguments[i + 1] + "/posts"@),
                ..options
            },
        ),
        i + 1 < arguments.len() && arguments[i] == "--project"@ && options.scope is None && (
        number::signed_value(arguments[i + 1]) matches Some(id) && id > 0)
            ==> arguments::list_options(arguments, i, options) == arguments::list_options(
            arguments,
            i + 2,
            ListModel {
                scope: Some(
                    "/api/v1/projects/"@ + number::decimal(
                        number::signed_value(arguments[i + 1])->0 as nat,
                    ) + "/posts"@,
                ),
                ..options
            },
        ),
        i + 1 < arguments.len() && arguments[i] == "--limit"@ && options.limit is None && (
        number::signed_value(arguments[i + 1]) matches Some(limit) && 0 < limit <= 100)
            ==> arguments::list_options(arguments, i, options) == arguments::list_options(
            arguments,
            i + 2,
            ListModel { limit: Some(arguments[i + 1]), ..options },
        ),
        i + 1 < arguments.len() && arguments[i] == "--cursor"@ && options.cursor is None
            ==> arguments::list_options(arguments, i, options) == arguments::list_options(
            arguments,
            i + 2,
            ListModel { cursor: Some(arguments[i + 1]), ..options },
        ),
{
    lemma_list_options_differ();
}

/// What the scope, the limit and the cursor ask for.
pub open spec fn query_of(limit: Option<i64>, cursor: Option<Seq<char>>) -> Seq<char> {
    match (limit, cursor) {
        (None, None) => Seq::empty(),
        (Some(number), None) => "?limit="@ + number::decimal(number as nat),
        (None, Some(text)) => "?cursor="@ + percent::encoded(encode_utf8(text)),
        (Some(number), Some(text)) => "?limit="@ + number::decimal(number as nat) + "&cursor="@
            + percent::encoded(encode_utf8(text)),
    }
}

/// The options that set a limit and a cursor.
pub open spec fn page_options(limit: Option<i64>, cursor: Option<Seq<char>>) -> Seq<Seq<char>> {
    let first = match limit {
        Some(number) => seq!["--limit"@, number::decimal(number as nat)],
        None => Seq::empty(),
    };
    let second = match cursor {
        Some(text) => seq!["--cursor"@, text],
        None => Seq::empty(),
    };
    first + second
}

/// `list` asks for the feed that its scope names, with its limit and its cursor, each where it is
/// set: a limit from 1 to 100, and a cursor percent-encoded.
pub proof fn law_lists_ask_for_their_feed(
    scope: Seq<Seq<char>>,
    feed: Seq<char>,
    limit: Option<i64>,
    cursor: Option<Seq<char>>,
)
    requires
        scope_of(scope, feed),
        limit matches Some(number) ==> 0 < number <= 100,
    ensures
        arguments::listed_path(scope + page_options(limit, cursor)) == Ok::<Seq<char>, CliErrorModel>(
            feed + query_of(limit, cursor),
        ),
        arguments::listed_path(page_options(limit, cursor) + scope) == Ok::<Seq<char>, CliErrorModel>(
            feed + query_of(limit, cursor),
        ),
{
    let none = ListModel { scope: None, limit: None, cursor: None };
    let shown = match limit {
        Some(number) => Some(number::decimal(number as nat)),
        None => None,
    };
    let page = ListModel { scope: None, limit: shown, cursor };
    let whole = ListModel { scope: Some(feed), limit: shown, cursor };
    let options = page_options(limit, cursor);
    let after = scope + options;
    lemma_scope(after, 0, scope, feed, none);
    lemma_page(
        after,
        scope.len() as int,
        limit,
        cursor,
        ListModel { scope: Some(feed), limit: None, cursor: None },
    );
    let before = options + scope;
    lemma_page(before, 0, limit, cursor, none);
    lemma_scope(before, options.len() as int, scope, feed, page);
    assert(arguments::list_options(after, after.len() as int, whole) == Ok::<_, CliErrorModel>(whole));
    assert(arguments::list_options(before, before.len() as int, whole) == Ok::<_, CliErrorModel>(
        whole,
    ));
    assert(feed + query_of(None, None) =~= feed);
    if let Some(number) = limit {
        let words = number::decimal(number as nat);
        assert(feed + "?limit="@ + words =~= feed + ("?limit="@ + words));
        if let Some(text) = cursor {
            let code = percent::encoded(encode_utf8(text));
            assert(feed + "?limit="@ + words + "&cursor="@ + code =~= feed + ("?limit="@ + words
                + "&cursor="@ + code));
        }
    } else if let Some(text) = cursor {
        let code = percent::encoded(encode_utf8(text));
        assert(feed + "?cursor="@ + code =~= feed + ("?cursor="@ + code));
    }
}

proof fn lemma_scope(
    arguments: Seq<Seq<char>>,
    at: int,
    scope: Seq<Seq<char>>,
    feed: Seq<char>,
    options: ListModel,
)
    requires
        0 <= at,
        at + scope.len() <= arguments.len(),
        forall|i: int| 0 <= i < scope.len() ==> arguments[at + i] == #[trigger] scope[i],
        scope_of(scope, feed),
        options.scope is None,
    ensures
        arguments::list_options(arguments, at, options) == arguments::list_options(
            arguments,
            at + scope.len(),
            ListModel { scope: Some(feed), ..options },
        ),
{
    if scope == seq!["--global"@] && feed == "/api/v1/posts"@ {
        assert(arguments[at + 0] == scope[0]);
        lemma_list_step(arguments, at, options);
    } else {
        assert(arguments[at + 0] == scope[0]);
        assert(arguments[at + 1] == scope[1]);
        if exists|id: Seq<char>|
            arguments::is_public_id(id) && scope == seq!["--session"@, id] && feed
                == #[trigger] ("/api/v1/sessions/"@ + id) + "/posts"@ {
            lemma_list_step(arguments, at, options);
        } else {
            let id = choose|id: i64|
                id > 0 && scope == seq!["--project"@, #[trigger] number::decimal(id as nat)] && feed
                    == "/api/v1/projects/"@ + number::decimal(id as nat) + "/posts"@;
            number::law_signed_decimal_reads_back(id);
            lemma_list_step(arguments, at, options);
        }
    }
}

proof fn lemma_page(
    arguments: Seq<Seq<char>>,
    at: int,
    limit: Option<i64>,
    cursor: Option<Seq<char>>,
    options: ListModel,
)
    requires
        0 <= at,
        at + page_options(limit, cursor).len() <= arguments.len(),
        forall|i: int|
            0 <= i < page_options(limit, cursor).len() ==> arguments[at + i] == #[trigger] page_options(
                limit,
                cursor,
            )[i],
        limit matches Some(number) ==> 0 < number <= 100,
        options.limit is None,
        options.cursor is None,
    ensures
        arguments::list_options(arguments, at, options) == arguments::list_options(
            arguments,
            at + page_options(limit, cursor).len(),
            ListModel {
                scope: options.scope,
                limit: match limit {
                    Some(number) => Some(number::decimal(number as nat)),
                    None => None,
                },
                cursor,
            },
        ),
{
    let page = page_options(limit, cursor);
    if let Some(number) = limit {
        number::law_signed_decimal_reads_back(number);
        assert(arguments[at + 0] == page[0]);
        assert(arguments[at + 1] == page[1]);
        lemma_list_step(arguments, at, options);
        let now = ListModel { limit: Some(number::decimal(number as nat)), ..options };
        if let Some(text) = cursor {
            assert(arguments[at + 2] == page[2]);
            assert(arguments[at + 3] == page[3]);
            lemma_list_step(arguments, at + 2, now);
        }
    } else if let Some(text) = cursor {
        assert(arguments[at + 0] == page[0]);
        assert(arguments[at + 1] == page[1]);
        lemma_list_step(arguments, at, options);
    }
}

/// A list without a scope, or with a limit that is none from 1 to 100, is refused.
pub proof fn law_lists_need_a_scope(limit: Seq<char>, cursor: Seq<char>)
    ensures
        arguments::listed_path(Seq::empty()) is Err,
        arguments::listed_path(seq!["--limit"@, limit]) is Err,
        arguments::listed_path(seq!["--cursor"@, cursor]) is Err,
        !(number::signed_value(limit) matches Some(number) && 0 < number <= 100)
            ==> arguments::listed_path(seq!["--global"@, "--limit"@, limit]) is Err,
        arguments::listed_path(seq!["--global"@, "--global"@]) is Err,
{
    lemma_list_options_differ();
    reveal_with_fuel(arguments::list_options, 4);
}

proof fn lemma_flags_differ()
    ensures
        "--file"@.len() == 6 && "--file"@[2] == 'f',
        "--integration"@.len() == 13 && "--integration"@[2] == 'i',
        "--external-key"@.len() == 14,
        "--project"@.len() == 9 && "--project"@[2] == 'p',
        "--working-directory"@.len() == 19,
        "--title"@.len() == 7,
        "--commentary"@.len() == 12 && "--commentary"@[2] == 'c',
        "--commentary-file"@.len() == 17,
        "--filename"@.len() == 10,
        "--caption"@.len() == 9 && "--caption"@[2] == 'c',
        "--media-type"@.len() == 12 && "--media-type"@[2] == 'm',
        "--predecessor"@.len() == 13 && "--predecessor"@[2] == 'p',
        "--open"@.len() == 6 && "--open"@[2] == 'o',
        "--json"@.len() == 6 && "--json"@[2] == 'j',
{
    reveal_strlit("--file");
    reveal_strlit("--integration");
    reveal_strlit("--external-key");
    reveal_strlit("--project");
    reveal_strlit("--working-directory");
    reveal_strlit("--title");
    reveal_strlit("--commentary");
    reveal_strlit("--commentary-file");
    reveal_strlit("--filename");
    reveal_strlit("--caption");
    reveal_strlit("--media-type");
    reveal_strlit("--predecessor");
    reveal_strlit("--open");
    reveal_strlit("--json");
}

/// Whether the word is an option of `publish` with a value.
pub open spec fn is_named_option(word: Seq<char>) -> bool {
    ||| word == "--file"@
    ||| word == "--integration"@
    ||| word == "--external-key"@
    ||| word == "--project"@
    ||| word == "--working-directory"@
    ||| word == "--title"@
    ||| word == "--commentary"@
    ||| word == "--commentary-file"@
    ||| word == "--filename"@
    ||| word == "--caption"@
    ||| word == "--media-type"@
    ||| word == "--predecessor"@
}

proof fn lemma_named_options(word: Seq<char>)
    ensures
        is_named_option(word) <==> flags::is_publish_flag(word),
        is_named_option(word) ==> word != "--open"@ && word != "--json"@,
{
    lemma_flags_differ();
}

proof fn lemma_value_of_set(values: Seq<(Seq<char>, Seq<char>)>, k: int, i: int)
    requires
        flags::set_once(values),
        0 <= i <= k < values.len(),
    ensures
        flags::flag_value_from(values, values[k].0, i) == Some(values[k].1),
    decreases k - i,
{
    if i < k {
        assert(values[i].0 != values[k].0);
        lemma_value_of_set(values, k, i + 1);
    }
}

proof fn lemma_value_of_unset(values: Seq<(Seq<char>, Seq<char>)>, flag: Seq<char>, i: int)
    requires
        0 <= i <= values.len(),
        forall|k: int| i <= k < values.len() ==> (#[trigger] values[k]).0 != flag,
    ensures
        flags::flag_value_from(values, flag, i) is None,
    decreases values.len() - i,
{
    if i < values.len() {
        lemma_value_of_unset(values, flag, i + 1);
    }
}

/// Whether the words are options with their values, in pairs.
pub open spec fn are_pairs(given: Seq<Seq<char>>, values: Seq<(Seq<char>, Seq<char>)>) -> bool {
    given.len() == 2 * values.len() && forall|k: int|
        0 <= k < values.len() ==> given[2 * k] == (#[trigger] values[k]).0 && given[2 * k + 1]
            == values[k].1
}

/// Any options with values, each once, are accepted by `publish` in any order and kept as they are
/// given, unless they name both kinds of commentary.
pub proof fn law_given_options_are_set(
    given: Seq<Seq<char>>,
    values: Seq<(Seq<char>, Seq<char>)>,
)
    requires
        are_pairs(given, values),
        flags::set_once(values),
        forall|k: int| 0 <= k < values.len() ==> is_named_option((#[trigger] values[k]).0),
        !(exists|j: int, k: int|
            0 <= j < values.len() && 0 <= k < values.len() && (#[trigger] values[j]).0
                == "--commentary"@ && (#[trigger] values[k]).0 == "--commentary-file"@),
    ensures
        flags::publish_source(given) == Ok::<Option<Seq<(Seq<char>, Seq<char>)>>, CliErrorModel>(
            Some(values),
        ),
{
    lemma_flags_differ();
    lemma_given_from(given, values, 0);
    assert(values.take(0) =~= Seq::empty());
    if given.len() > 0 {
        assert(given[2 * 0int] == values[0].0);
        lemma_named_options(values[0].0);
    }
    if flags::flag_value(values, "--commentary"@) is Some && flags::flag_value(
        values,
        "--commentary-file"@,
    ) is Some {
        if forall|k: int| 0 <= k < values.len() ==> (#[trigger] values[k]).0 != "--commentary"@ {
            lemma_value_of_unset(values, "--commentary"@, 0);
        }
        if forall|k: int| 0 <= k < values.len() ==> (#[trigger] values[k]).0 != "--commentary-file"@ {
            lemma_value_of_unset(values, "--commentary-file"@, 0);
        }
        let j = choose|j: int| 0 <= j < values.len() && (#[trigger] values[j]).0 == "--commentary"@;
        let k = choose|k: int|
            0 <= k < values.len() && (#[trigger] values[k]).0 == "--commentary-file"@;
        assert(values[j].0 == "--commentary"@ && values[k].0 == "--commentary-file"@);
    }
}

proof fn lemma_given_from(
    given: Seq<Seq<char>>,
    values: Seq<(Seq<char>, Seq<char>)>,
    n: int,
)
    requires
        are_pairs(given, values),
        flags::set_once(values),
        forall|k: int| 0 <= k < values.len() ==> is_named_option((#[trigger] values[k]).0),
        0 <= n <= values.len(),
    ensures
        flags::flags_from(given, 2 * n, values.take(n)) == Ok::<
            Seq<(Seq<char>, Seq<char>)>,
            CliErrorModel,
        >(values),
    decreases values.len() - n,
{
    if n < values.len() {
        let so_far = values.take(n);
        assert(given[2 * n] == values[n].0 && given[2 * n + 1] == values[n].1);
        lemma_named_options(values[n].0);
        assert forall|k: int| 0 <= k < so_far.len() implies (#[trigger] so_far[k]).0 != values[n].0 by {
            assert(so_far[k] == values[k]);
        }
        lemma_value_of_unset(so_far, values[n].0, 0);
        assert(so_far.push(values[n]) =~= values.take(n + 1));
        lemma_given_from(given, values, n + 1);
    } else {
        assert(values.take(n) =~= values);
    }
}

/// The publication that options describe is made of their values: each field is the value of the
/// option that names it, what no option names is not there, and the one file brings its assets.
pub proof fn law_options_describe_the_publication(
    values: Seq<(Seq<char>, Seq<char>)>,
    commentary: Seq<char>,
    input: InputModel,
    k: int,
)
    requires
        flags::set_once(values),
        flags::described_publication(values, commentary) == Ok::<InputModel, CliErrorModel>(input),
        0 <= k < values.len(),
    ensures
        input.commentary == commentary,
        input.files.len() == 1,
        input.files[0].collect_assets,
        values[k].0 == "--integration"@ ==> input.integration_namespace == values[k].1,
        values[k].0 == "--external-key"@ ==> input.external_key == values[k].1,
        values[k].0 == "--project"@ ==> input.project_label == values[k].1,
        values[k].0 == "--working-directory"@ ==> input.working_directory == values[k].1,
        values[k].0 == "--title"@ ==> input.title == values[k].1,
        values[k].0 == "--file"@ ==> input.files[0].source_path == values[k].1,
        values[k].0 == "--filename"@ ==> input.files[0].published_filename == Some(values[k].1),
        values[k].0 == "--caption"@ ==> input.files[0].caption == Some(values[k].1),
        values[k].0 == "--media-type"@ ==> input.files[0].media_type == Some(values[k].1),
        values[k].0 == "--predecessor"@ ==> (input.predecessor_post_id matches Some(id)
            && number::signed_value(values[k].1) == Some(id as int) && id > 0),
        !names(values, "--filename"@) ==> input.files[0].published_filename is None,
        !names(values, "--caption"@) ==> input.files[0].caption is None,
        !names(values, "--media-type"@) ==> input.files[0].media_type is None,
        !names(values, "--predecessor"@) ==> input.predecessor_post_id is None,
        names(values, "--integration"@),
        names(values, "--external-key"@),
        names(values, "--project"@),
        names(values, "--working-directory"@),
        names(values, "--title"@),
        names(values, "--file"@),
{
    lemma_flags_differ();
    lemma_value_of_set(values, k, 0);
    if !names(values, "--integration"@) {
        lemma_value_of_unset(values, "--integration"@, 0);
    }
    if !names(values, "--external-key"@) {
        lemma_value_of_unset(values, "--external-key"@, 0);
    }
    if !names(values, "--project"@) {
        lemma_value_of_unset(values, "--project"@, 0);
    }
    if !names(values, "--working-directory"@) {
        lemma_value_of_unset(values, "--working-directory"@, 0);
    }
    if !names(values, "--title"@) {
        lemma_value_of_unset(values, "--title"@, 0);
    }
    if !names(values, "--file"@) {
        lemma_value_of_unset(values, "--file"@, 0);
    }
    if !names(values, "--filename"@) {
        lemma_value_of_unset(values, "--filename"@, 0);
    }
    if !names(values, "--caption"@) {
        lemma_value_of_unset(values, "--caption"@, 0);
    }
    if !names(values, "--media-type"@) {
        lemma_value_of_unset(values, "--media-type"@, 0);
    }
    if !names(values, "--predecessor"@) {
        lemma_value_of_unset(values, "--predecessor"@, 0);
    }
}

/// Whether an option is among those that are set.
pub open spec fn names(values: Seq<(Seq<char>, Seq<char>)>, flag: Seq<char>) -> bool {
    exists|k: int| 0 <= k < values.len() && (#[trigger] values[k]).0 == flag
}

/// Options that name all that a publication needs, and a predecessor by a positive number if any,
/// describe one.
pub proof fn law_complete_options_describe_one(
    values: Seq<(Seq<char>, Seq<char>)>,
    commentary: Seq<char>,
)
    requires
        flags::set_once(values),
        names(values, "--integration"@),
        names(values, "--external-key"@),
        names(values, "--project"@),
        names(values, "--working-directory"@),
        names(values, "--title"@),
        names(values, "--file"@),
        !names(values, "--predecessor"@),
    ensures
        flags::described_publication(values, commentary) is Ok,
{
    lemma_value_of_unset(values, "--predecessor"@, 0);
    let k_integration = choose|k: int| 0 <= k < values.len() && (#[trigger] values[k]).0 == "--integration"@;
    lemma_value_of_set(values, k_integration, 0);
    let k_external_key = choose|k: int| 0 <= k < values.len() && (#[trigger] values[k]).0 == "--external-key"@;
    lemma_value_of_set(values, k_external_key, 0);
    let k_project = choose|k: int| 0 <= k < values.len() && (#[trigger] values[k]).0 == "--project"@;
    lemma_value_of_set(values, k_project, 0);
    let k_working_directory = choose|k: int| 0 <= k < values.len() && (#[trigger] values[k]).0 == "--working-directory"@;
    lemma_value_of_set(values, k_working_directory, 0);
    let k_title = choose|k: int| 0 <= k < values.len() && (#[trigger] values[k]).0 == "--title"@;
    lemma_value_of_set(values, k_title, 0);
    let k_file = choose|k: int| 0 <= k < values.len() && (#[trigger] values[k]).0 == "--file"@;
    lemma_value_of_set(values, k_file, 0);
}

/// `publish --json` reads JSON, alone or with `--open`; with any other word it is refused.
pub proof fn law_json_stands_alone(rest: Seq<Seq<char>>)
    ensures
        flags::publish_source(seq!["--json"@] + rest) is Ok <==> forall|i: int|
            0 <= i < rest.len() ==> #[trigger] rest[i] == "--open"@,
        flags::publish_source(seq!["--json"@] + rest) matches Ok(found) ==> found is None,
{
    let given = seq!["--json"@] + rest;
    assert(given[0] == "--json"@);
    if flags::publish_source(given) is Ok {
        assert forall|i: int| 0 <= i < rest.len() implies #[trigger] rest[i] == "--open"@ by {
            assert(given[i + 1] == rest[i]);
        }
    }
    if forall|i: int| 0 <= i < rest.len() ==> #[trigger] rest[i] == "--open"@ {
        assert forall|i: int| 1 <= i < given.len() implies #[trigger] given[i] == "--open"@ by {
            assert(given[i] == rest[i - 1]);
        }
    }
}

/// A publication is believed exactly where the daemon answered 201 with a session and a post of
/// that session; then it can be seen on the session's page, and the post at its own place there.
pub proof fn law_believed_publications_can_be_seen(
    base: Seq<char>,
    status: u16,
    body: FailureBody,
    reply: Option<PublicationReply>,
)
    ensures
        ({
            let outcome = sending::publication_outcome(base, status, body, reply);
            &&& outcome is Ok <==> status == 201 && reply is Some && {
                &&& reply->0.is_object
                &&& reply->0.post_id > 0
                &&& reply->0.session_public_id@.len() >= 6
                &&& session::is_public_id(reply->0.session_public_id@)
                &&& reply->0.post_session_public_id@ == reply->0.session_public_id@
            }
            &&& outcome matches Ok((viewer, post)) ==> {
                &&& viewer == base + "/sessions/"@ + reply->0.session_public_id@
                &&& post == base + "/sessions/"@ + reply->0.session_public_id@ + "#post-"@
                    + number::decimal(reply->0.post_id as nat)
            }
            &&& outcome matches Err(failure) ==> {
                &&& status == 201 ==> failure.code == "malformed_daemon_response"@
                &&& status != 201 ==> failure.details.contains(
                    ("http_status"@, ValueModel::Number(status as int)),
                )
                &&& status != 201 && body.code is Some ==> failure.code == body.code->0@
                &&& status != 201 && body.message is Some ==> failure.message == body.message->0@
                &&& status != 201 && body.code is None ==> failure.code == "daemon_rejected"@
            }
        }),
{
    if status != 201 {
        let found = details::models(body.details@);
        lemma_value_stands(found, "http_status"@, ValueModel::Number(status as int));
    }
}

proof fn lemma_place(list: Seq<(Seq<char>, ValueModel)>, name: Seq<char>, i: int)
    requires
        0 <= i,
    ensures
        details::place_of(list, name, i) matches Some(at) ==> i <= at < list.len(),
    decreases list.len() - i,
{
    if i < list.len() {
        lemma_place(list, name, i + 1);
    }
}

proof fn lemma_value_stands(list: Seq<(Seq<char>, ValueModel)>, name: Seq<char>, value: ValueModel)
    ensures
        details::with_value(list, name, value).contains((name, value)),
{
    lemma_place(list, name, 0);
    let now = details::with_value(list, name, value);
    match details::place_of(list, name, 0) {
        Some(at) => {
            assert(now[at] == (name, value));
        },
        None => {
            assert(now[list.len() as int] == (name, value));
        },
    }
}

/// `open` opens a URL with a host as it is, and the page of a session that is named by its ID; what
/// is neither is refused.
pub proof fn law_open_goes_where_it_is_told(
    value: Seq<char>,
    parts: Option<UrlModel>,
    base: Seq<char>,
)
    ensures
        ({
            let opened = address::opened_url(value, parts, Ok(base));
            let is_url = text::has_prefix(value, "http://"@) || text::has_prefix(value, "https://"@);
            &&& is_url && parts is Some && parts->0.host is Some ==> opened == Ok::<
                Seq<char>,
                CliErrorModel,
            >(value)
            &&& is_url && !(parts is Some && parts->0.host is Some) ==> opened is Err
            &&& !is_url && arguments::is_public_id(value) ==> opened == Ok::<Seq<char>, CliErrorModel>(
                base + "/sessions/"@ + value,
            )
            &&& !is_url && !arguments::is_public_id(value) ==> opened is Err
        }),
{
}

/// The daemon's address is the configured URL, or that of this machine at port 3030, without the
/// slashes at its end; it is an HTTP or HTTPS origin and nothing more.
pub proof fn law_daemon_addresses_are_origins(value: Seq<char>, parts: UrlModel)
    ensures
        address::configured_url(Some(value)) == value,
        address::configured_url(None) == "http://127.0.0.1:3030"@,
        address::daemon_address(value, None) is Err,
        address::daemon_address(value, Some(parts)) is Ok <==> {
            &&& parts.scheme == "http"@ || parts.scheme == "https"@
            &&& parts.host is Some
            &&& parts.username.len() == 0
            &&& parts.password is None
            &&& parts.query is None
            &&& parts.fragment is None
            &&& parts.path == "/"@
        },
        address::daemon_address(value, Some(parts)) matches Ok(found) ==> found.len() <= value.len()
            && found == value.take(found.len() as int) && (forall|i: int|
            found.len() <= i < value.len() ==> #[trigger] value[i] == '/') && (found.len() > 0
            ==> found.last() != '/'),
{
    lemma_only_slashes_go(value);
}

proof fn lemma_only_slashes_go(s: Seq<char>)
    ensures
        address::without_slashes(s).len() <= s.len(),
        address::without_slashes(s) == s.take(address::without_slashes(s).len() as int),
        forall|i: int| address::without_slashes(s).len() <= i < s.len() ==> #[trigger] s[i] == '/',
        address::without_slashes(s).len() > 0 ==> address::without_slashes(s).last() != '/',
    decreases s.len(),
{
    if s.len() > 0 && s.last() == '/' {
        lemma_only_slashes_go(s.drop_last());
        let rest = address::without_slashes(s.drop_last());
        assert(s.drop_last().take(rest.len() as int) =~= s.take(rest.len() as int));
        assert forall|i: int| rest.len() <= i < s.len() implies #[trigger] s[i] == '/' by {
            if i < s.len() - 1 {
                assert(s.drop_last()[i] == s[i]);
            }
        }
    } else {
        assert(s.take(s.len() as int) =~= s);
    }
}

/// A browser counts as launched exactly where its command is still running or ended well.
pub proof fn law_running_browsers_are_launched(end: BrowserEnd)
    ensures
        browser::launch_fault(end) is None <==> {
            ||| end is Running
            ||| end matches BrowserEnd::Exited { success, .. } && success
        },
        browser::launch_fault(end) matches Some(failure) ==> failure.code
            == "browser_launch_failed"@,
{
}

} // verus!

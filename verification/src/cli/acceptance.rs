//! What is promised of a publication that is ready: the daemon takes its manifest.
use vstd::prelude::*;
use crate::api::manifest;
use crate::api::manifest::{ManifestFile, ManifestSupportAsset, PublicationManifest};
use crate::cli::flags::InputModel;
use crate::cli::publication;
use crate::cli::publication::{PreparationModel, PrepareAnswer, PreparedModel};
use crate::number;
use crate::storage::read;
use crate::text;

verus! {

// ---- what preparation keeps ----

/// Whether a prepared file can be published.
pub open spec fn is_publishable(file: PreparedModel) -> bool {
    publication::is_publishable_name(file.filename) && (file.media_type matches Some(value)
        ==> !text::is_blank(value))
}

/// What holds of a publication throughout its preparation.
pub open spec fn is_sound(state: PreparationModel) -> bool {
    &&& !(state.step is Failed) ==> publication::input_fault(state.input) is None
    &&& publication::total_parts(state.files) <= manifest::MAX_DECLARED_PARTS
    &&& state.files.len() <= state.input.files.len()
    &&& state.step is ResolveDirectory || state.step is ResolveSource || state.step is OpenSource
        || state.step is CollectAssets ==> state.files.len() < state.input.files.len()
    &&& state.step is CollectGit || state.step is Ready ==> state.files.len()
        == state.input.files.len()
    &&& state.step is CollectAssets ==> publication::source_fault(
        publication::file_at_hand(state),
        state.name,
    ) is None
    &&& state.seen.no_duplicates()
    &&& forall|i: int| 0 <= i < state.files.len() ==> is_publishable(#[trigger] state.files[i])
    &&& state.step is Ready ==> vstd::utf8::valid_utf8(state.directory)
}

proof fn lemma_with_file(state: PreparationModel, assets: Seq<Seq<char>>)
    requires
        publication::total_parts(state.files) <= manifest::MAX_DECLARED_PARTS,
        publication::input_fault(state.input) is None,
        state.files.len() < state.input.files.len(),
        publication::source_fault(publication::file_at_hand(state), state.name) is None,
        state.seen.no_duplicates(),
        forall|i: int| 0 <= i < state.files.len() ==> is_publishable(#[trigger] state.files[i]),
    ensures
        is_sound(publication::with_file(state, assets)),
{
    let next = publication::with_file(state, assets);
    if !(next.step is Failed) {
        assert(next.files.drop_last() =~= state.files);
    }
}

/// A publication starts sound and stays so with every step: what is ready has no blank field, no
/// file twice, every file under a name that can be published, and 256 byte parts at most.
pub proof fn law_preparation_stays_sound(
    input: InputModel,
    state: PreparationModel,
    answer: PrepareAnswer,
)
    requires
        is_sound(state),
    ensures
        is_sound(publication::prepare_start(input)),
        is_sound(publication::prepare_after(state, answer)),
{
    let next = publication::prepare_after(state, answer);
    match (state.step, answer) {
        (publication::PrepareModel::ResolveSource, PrepareAnswer::Source(Ok(canonical))) => {
            if !state.seen.contains(canonical@) {
                let seen = state.seen.push(canonical@);
                assert(seen.no_duplicates()) by {
                    assert forall|a: int, b: int| 0 <= a < seen.len() && 0 <= b < seen.len() && a
                        != b implies seen[a] != seen[b] by {
                        if a == state.seen.len() {
                            assert(state.seen[b] == seen[b]);
                        } else if b == state.seen.len() {
                            assert(state.seen[a] == seen[a]);
                        }
                    }
                }
            }
        },
        (
            publication::PrepareModel::OpenSource,
            PrepareAnswer::Opened(publication::OpenAnswer::Opened { regular, byte_size }),
        ) => {
            let source = publication::file_at_hand(state);
            let name = publication::chosen_name(source, state.seen.last());
            let named = PreparationModel { name, byte_size, ..state };
            if regular && publication::source_fault(source, name) is None
                && !source.collect_assets {
                lemma_with_file(named, Seq::empty());
            }
        },
        (publication::PrepareModel::CollectAssets, PrepareAnswer::Assets(Ok(assets))) => {
            lemma_with_file(state, text::texts(assets@));
        },
        _ => {},
    }
}

// ---- part names ----

proof fn lemma_file_parts_differ(a: nat, b: nat)
    requires
        publication::file_part(a) == publication::file_part(b),
    ensures
        a == b,
{
    let head = "file-"@;
    assert(publication::file_part(a).skip(head.len() as int) =~= number::decimal(a));
    assert(publication::file_part(b).skip(head.len() as int) =~= number::decimal(b));
    number::law_decimal_reads_back(a);
    number::law_decimal_reads_back(b);
}

proof fn lemma_joined_numbers(a: nat, b: nat, c: nat, d: nat)
    requires
        number::decimal(a) + "-"@ + number::decimal(b) == number::decimal(c) + "-"@
            + number::decimal(d),
        number::decimal(a).len() <= number::decimal(c).len(),
    ensures
        a == c,
        b == d,
{
    reveal_strlit("-");
    let whole = number::decimal(a) + "-"@ + number::decimal(b);
    let at = number::decimal(a).len() as int;
    let other = number::decimal(c).len() as int;
    number::law_decimal_reads_back(a);
    number::law_decimal_reads_back(b);
    number::law_decimal_reads_back(c);
    number::law_decimal_reads_back(d);
    assert(whole[at] == '-');
    if at < other {
        assert(whole[at] == number::decimal(c)[at]);
        assert(text::is_digit(number::decimal(c)[at]));
        assert(false);
    }
    assert(whole.take(at) =~= number::decimal(a));
    assert(whole.take(at) =~= number::decimal(c));
    assert(whole.skip(at + 1) =~= number::decimal(b));
    assert(whole.skip(at + 1) =~= number::decimal(d));
}

proof fn lemma_asset_parts_differ(a: nat, b: nat, c: nat, d: nat)
    requires
        publication::asset_part(a, b) == publication::asset_part(c, d),
    ensures
        a == c,
        b == d,
{
    let head = "asset-"@;
    let first = number::decimal(a) + "-"@ + number::decimal(b);
    let second = number::decimal(c) + "-"@ + number::decimal(d);
    assert(publication::asset_part(a, b).skip(head.len() as int) =~= first);
    assert(publication::asset_part(c, d).skip(head.len() as int) =~= second);
    if number::decimal(a).len() <= number::decimal(c).len() {
        lemma_joined_numbers(a, b, c, d);
    } else {
        lemma_joined_numbers(c, d, a, b);
    }
}

proof fn lemma_kinds_differ(a: nat, b: nat, c: nat)
    ensures
        publication::file_part(a) != publication::asset_part(b, c),
        publication::file_part(a).len() > 0,
        publication::asset_part(b, c).len() > 0,
{
    reveal_strlit("file-");
    reveal_strlit("asset-");
    assert(publication::file_part(a)[0] == 'f');
    assert(publication::asset_part(b, c)[0] == 'a');
}

/// Whether a name is that of a part of the files before the one at `i`.
pub open spec fn names_earlier(name: Seq<char>, i: int) -> bool {
    ||| exists|a: int| 0 <= a < i && name == #[trigger] publication::file_part(a as nat)
    ||| exists|a: int, b: int|
        0 <= a < i && 0 <= b && name == #[trigger] publication::asset_part(a as nat, b as nat)
}

/// Whether a name is that of a part before the asset at `j` of the file at `i`.
pub open spec fn names_before(name: Seq<char>, i: int, j: int) -> bool {
    ||| names_earlier(name, i)
    ||| name == publication::file_part(i as nat)
    ||| exists|b: int| 0 <= b < j && name == #[trigger] publication::asset_part(i as nat, b as nat)
}

proof fn lemma_new_file(name: Seq<char>, i: int)
    requires
        0 <= i,
        names_earlier(name, i),
    ensures
        name != publication::file_part(i as nat),
{
    if name == publication::file_part(i as nat) {
        if exists|a: int| 0 <= a < i && name == #[trigger] publication::file_part(a as nat) {
            let a = choose|a: int| 0 <= a < i && name == #[trigger] publication::file_part(a as nat);
            lemma_file_parts_differ(a as nat, i as nat);
        } else {
            let (a, b) = choose|a: int, b: int|
                0 <= a < i && 0 <= b && name == #[trigger] publication::asset_part(
                    a as nat,
                    b as nat,
                );
            lemma_kinds_differ(i as nat, a as nat, b as nat);
        }
    }
}

proof fn lemma_new_asset(name: Seq<char>, i: int, j: int)
    requires
        0 <= i,
        0 <= j,
        names_before(name, i, j),
    ensures
        name != publication::asset_part(i as nat, j as nat),
{
    let new = publication::asset_part(i as nat, j as nat);
    if name == new {
        if name == publication::file_part(i as nat) {
            lemma_kinds_differ(i as nat, i as nat, j as nat);
        } else if exists|b: int|
            0 <= b < j && name == #[trigger] publication::asset_part(i as nat, b as nat) {
            let b = choose|b: int|
                0 <= b < j && name == #[trigger] publication::asset_part(i as nat, b as nat);
            lemma_asset_parts_differ(i as nat, b as nat, i as nat, j as nat);
        } else if exists|a: int| 0 <= a < i && name == #[trigger] publication::file_part(a as nat) {
            let a = choose|a: int| 0 <= a < i && name == #[trigger] publication::file_part(a as nat);
            lemma_kinds_differ(a as nat, i as nat, j as nat);
        } else {
            let (a, b) = choose|a: int, b: int|
                0 <= a < i && 0 <= b && name == #[trigger] publication::asset_part(
                    a as nat,
                    b as nat,
                );
            lemma_asset_parts_differ(a as nat, b as nat, i as nat, j as nat);
        }
    }
}

proof fn lemma_assets_accepted(
    declared: Seq<ManifestSupportAsset>,
    assets: Seq<Seq<char>>,
    seen: Seq<Seq<char>>,
    i: int,
    j: int,
)
    requires
        0 <= i,
        0 <= j <= declared.len(),
        publication::describes_assets(declared, assets, i),
        assets.no_duplicates(),
        forall|k: int| 0 <= k < seen.len() ==> names_before(#[trigger] seen[k], i, j),
    ensures
        ({
            let found = manifest::asset_parts(declared, seen, j);
            &&& found is Ok
            &&& forall|k: int|
                0 <= k < found->Ok_0.len() ==> names_earlier(#[trigger] found->Ok_0[k], i + 1)
        }),
    decreases declared.len() - j,
{
    if j < declared.len() {
        let name = declared[j].part@;
        assert(name == publication::asset_part(i as nat, j as nat));
        lemma_kinds_differ(0, i as nat, j as nat);
        if seen.contains(name) {
            let k = choose|k: int| 0 <= k < seen.len() && seen[k] == name;
            assert(names_before(seen[k], i, j));
            lemma_new_asset(name, i, j);
        }
        if manifest::repeats_path(declared, j) {
            let k = choose|k: int|
                0 <= k < j && (#[trigger] declared[k]).relative_path@ == declared[j].relative_path@;
            assert(assets[k] == assets[j]);
        }
        let next = seen.push(name);
        assert forall|k: int| 0 <= k < next.len() implies names_before(
            #[trigger] next[k],
            i,
            j + 1,
        ) by {
            if k < seen.len() {
                assert(names_before(seen[k], i, j));
                if !names_earlier(seen[k], i) && seen[k] != publication::file_part(i as nat) {
                    let b = choose|b: int|
                        0 <= b < j && seen[k] == #[trigger] publication::asset_part(
                            i as nat,
                            b as nat,
                        );
                    assert(0 <= b < j + 1);
                }
            } else {
                assert(next[k] == publication::asset_part(i as nat, j as nat));
            }
        }
        lemma_assets_accepted(declared, assets, next, i, j + 1);
    } else {
        assert forall|k: int| 0 <= k < seen.len() implies names_earlier(
            #[trigger] seen[k],
            i + 1,
        ) by {
            assert(names_before(seen[k], i, j));
            lemma_earlier_grows(seen[k], i, j);
        }
    }
}

proof fn lemma_earlier_grows(name: Seq<char>, i: int, j: int)
    requires
        0 <= i,
        names_before(name, i, j),
    ensures
        names_earlier(name, i + 1),
{
    if name == publication::file_part(i as nat) {
        assert(0 <= i < i + 1);
    } else if exists|b: int|
        0 <= b < j && name == #[trigger] publication::asset_part(i as nat, b as nat) {
        let b = choose|b: int|
            0 <= b < j && name == #[trigger] publication::asset_part(i as nat, b as nat);
        assert(0 <= i < i + 1 && 0 <= b);
    } else if exists|a: int| 0 <= a < i && name == #[trigger] publication::file_part(a as nat) {
        let a = choose|a: int| 0 <= a < i && name == #[trigger] publication::file_part(a as nat);
        assert(0 <= a < i + 1);
    } else {
        let (a, b) = choose|a: int, b: int|
            0 <= a < i && 0 <= b && name == #[trigger] publication::asset_part(a as nat, b as nat);
        assert(0 <= a < i + 1);
    }
}

/// Whether no file depends on one path twice.
pub open spec fn has_distinct_assets(files: Seq<PreparedModel>) -> bool {
    forall|i: int| 0 <= i < files.len() ==> (#[trigger] files[i]).assets.no_duplicates()
}

proof fn lemma_files_accepted(
    declared: Seq<ManifestFile>,
    files: Seq<PreparedModel>,
    seen: Seq<Seq<char>>,
    i: int,
)
    requires
        0 <= i <= declared.len(),
        declared.len() == files.len(),
        forall|k: int|
            0 <= k < declared.len() ==> publication::describes_file(
                #[trigger] declared[k],
                files[k],
                k,
            ),
        has_distinct_assets(files),
        forall|k: int| 0 <= k < seen.len() ==> names_earlier(#[trigger] seen[k], i),
    ensures
        manifest::file_parts(declared, seen, i) is Ok,
    decreases declared.len() - i,
{
    if i < declared.len() {
        let name = declared[i].part@;
        assert(publication::describes_file(declared[i], files[i], i));
        assert(name == publication::file_part(i as nat));
        lemma_kinds_differ(i as nat, 0, 0);
        if seen.contains(name) {
            let k = choose|k: int| 0 <= k < seen.len() && seen[k] == name;
            assert(names_earlier(seen[k], i));
            lemma_new_file(name, i);
        }
        let next = seen.push(name);
        assert forall|k: int| 0 <= k < next.len() implies names_before(
            #[trigger] next[k],
            i,
            0,
        ) by {
            if k < seen.len() {
                assert(names_earlier(seen[k], i));
            }
        }
        assert(files[i].assets.no_duplicates());
        lemma_assets_accepted(declared[i].support_assets@, files[i].assets, next, i, 0);
        let now = manifest::asset_parts(declared[i].support_assets@, next, 0)->Ok_0;
        lemma_files_accepted(declared, files, now, i + 1);
    }
}

proof fn lemma_same_count(declared: Seq<ManifestFile>, files: Seq<PreparedModel>)
    requires
        declared.len() == files.len(),
        forall|k: int|
            0 <= k < declared.len() ==> publication::describes_file(
                #[trigger] declared[k],
                files[k],
                k,
            ),
    ensures
        manifest::part_count(declared) == publication::total_parts(files),
    decreases declared.len(),
{
    if declared.len() > 0 {
        let last = declared.len() - 1;
        assert(publication::describes_file(declared[last], files[last], last));
        assert forall|k: int| 0 <= k < declared.drop_last().len() implies publication::describes_file(
            #[trigger] declared.drop_last()[k],
            files.drop_last()[k],
            k,
        ) by {
            assert(publication::describes_file(declared[k], files[k], k));
        }
        lemma_same_count(declared.drop_last(), files.drop_last());
    }
}

/// The daemon accepts the manifest of every publication that is ready: it finds no blank field,
/// no malformed provenance, at least one file, 256 parts at most, and no part name or support
/// path twice. What Git said must be within the supported lengths, no file may depend on one
/// path twice, and the working directory must not be blank, as no canonical path is.
pub proof fn law_ready_publications_are_accepted(
    declared: PublicationManifest,
    state: PreparationModel,
)
    requires
        is_sound(state),
        state.step is Ready,
        publication::describes(declared, state),
        has_distinct_assets(state.files),
        state.git matches Some(git) ==> read::is_valid_provenance(git.0, git.1, git.2),
        !text::is_blank(vstd::utf8::decode_utf8(state.directory)),
    ensures
        manifest::declared_parts(declared) is Ok,
{
    lemma_same_count(declared.files@, state.files);
    lemma_files_accepted(declared.files@, state.files, Seq::empty(), 0);
}

} // verus!

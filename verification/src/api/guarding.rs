//! Who is let in, and which publications are taken: the paths and methods that need no credentials,
//! the credentials that count, and the manifests that are accepted.
use vstd::prelude::*;
use crate::api::auth;
use crate::api::auth::{Access, AccessHeaders, AuthenticatedBy, GrantModel, ProxyAccess};
use crate::api::error::ErrorModel;
use crate::api::manifest;
use crate::api::manifest::{ManifestFile, ManifestSupportAsset, PublicationManifest};
use crate::api::paths;
use crate::details::ValueModel;
use crate::number;
use crate::storage::read;
use crate::text;

verus! {

// ---- credentials ----

/// The token in an authorization header, behind the word `Bearer`, shows who sent a request. Any
/// other authorization header shows nothing, whatever cookies come with it.
pub proof fn law_the_token_is_borne(
    headers: AccessHeaders,
    value: Vec<u8>,
    token: Seq<char>,
    sessions: Seq<GrantModel>,
    now: Option<u64>,
)
    requires
        headers.authorization == Some(value),
    ensures
        auth::is_header_text(value@) && auth::header_chars(value@) == "Bearer "@ + token
            ==> auth::shown_by(headers, token, sessions, now) == Some(AuthenticatedBy::Bearer),
        auth::header_chars(value@) != "Bearer "@ + token ==> auth::shown_by(
            headers,
            token,
            sessions,
            now,
        ) is None,
{
    let chars = auth::header_chars(value@);
    if chars == "Bearer "@ + token {
        assert(chars.take("Bearer "@.len() as int) =~= "Bearer "@);
        assert(chars.skip("Bearer "@.len() as int) =~= token);
    } else if auth::bears(value@, token) {
        assert(chars =~= chars.take("Bearer "@.len() as int) + chars.skip("Bearer "@.len() as int));
    }
}

/// The cookie `glim_session` shows who sent a request exactly where its secret is that of a session
/// that has not ended; and no session shows anything where the time is not known.
pub proof fn law_sessions_vouch_while_they_last(
    headers: AccessHeaders,
    token: Seq<char>,
    sessions: Seq<GrantModel>,
    now: Option<u64>,
)
    requires
        headers.authorization is None,
    ensures
        auth::shown_by(headers, token, sessions, now) == Some(AuthenticatedBy::Cookie) <==> {
            let secret = auth::cookie_of(auth::values(headers.cookies@), "glim_session"@, 0);
            now is Some && secret is Some && exists|i: int|
                0 <= i < sessions.len() && (#[trigger] sessions[i]).secret == secret->0
                    && sessions[i].expires_at > now->0
        },
        auth::shown_by(headers, token, sessions, now) != Some(AuthenticatedBy::Bearer),
{
    let secret = auth::cookie_of(auth::values(headers.cookies@), "glim_session"@, 0);
    if now is Some && secret is Some {
        lemma_live(sessions, now->0);
        lemma_positions(auth::live(sessions, now->0), secret->0, 0);
        let left = auth::live(sessions, now->0);
        if let Some(k) = auth::position(left, secret->0, 0) {
            assert(is_live_of(sessions, now->0, left[k]));
        }
        if exists|i: int|
            0 <= i < sessions.len() && (#[trigger] sessions[i]).secret == secret->0
                && sessions[i].expires_at > now->0 {
            let i = choose|i: int|
                0 <= i < sessions.len() && (#[trigger] sessions[i]).secret == secret->0
                    && sessions[i].expires_at > now->0;
            assert(left.contains(sessions[i]));
            let k = choose|k: int| 0 <= k < left.len() && left[k] == sessions[i];
            assert(left[k].secret == secret->0);
        }
    }
}

/// Whether a grant is one of those that have not ended.
pub open spec fn is_live_of(grants: Seq<GrantModel>, now: u64, grant: GrantModel) -> bool {
    exists|i: int| 0 <= i < grants.len() && #[trigger] grants[i] == grant && grant.expires_at > now
}

proof fn lemma_live(grants: Seq<GrantModel>, now: u64)
    ensures
        forall|k: int|
            0 <= k < auth::live(grants, now).len() ==> is_live_of(
                grants,
                now,
                #[trigger] auth::live(grants, now)[k],
            ),
        forall|i: int|
            0 <= i < grants.len() && (#[trigger] grants[i]).expires_at > now ==> auth::live(
                grants,
                now,
            ).contains(grants[i]),
    decreases grants.len(),
{
    if grants.len() > 0 {
        let before = grants.drop_last();
        lemma_live(before, now);
        let left = auth::live(grants, now);
        let was = auth::live(before, now);
        assert forall|k: int| 0 <= k < left.len() implies is_live_of(grants, now, #[trigger] left[k]) by {
            if k < was.len() {
                assert(left[k] == was[k]);
                assert(is_live_of(before, now, was[k]));
                let i = choose|i: int| 0 <= i < before.len() && #[trigger] before[i] == was[k];
                assert(grants[i] == was[k]);
            } else {
                assert(grants[grants.len() - 1] == left[k]);
            }
        }
        assert forall|i: int| 0 <= i < grants.len() && (#[trigger] grants[i]).expires_at > now implies left.contains(
            grants[i],
        ) by {
            if i < before.len() {
                assert(before[i] == grants[i]);
                assert(was.contains(before[i]));
                let k = choose|k: int| 0 <= k < was.len() && was[k] == before[i];
                assert(left[k] == grants[i]);
            } else {
                assert(left[was.len() as int] == grants[i]);
            }
        }
    }
}

proof fn lemma_positions(grants: Seq<GrantModel>, secret: Seq<char>, i: int)
    requires
        0 <= i,
    ensures
        auth::position(grants, secret, i) matches Some(k) ==> i <= k < grants.len()
            && grants[k].secret == secret,
        auth::position(grants, secret, i) is None ==> forall|k: int|
            i <= k < grants.len() ==> (#[trigger] grants[k]).secret != secret,
    decreases grants.len() - i,
{
    if i < grants.len() && grants[i].secret != secret {
        lemma_positions(grants, secret, i + 1);
    }
}

/// A session lasts twelve hours and a capability five minutes from when it is handed out; 128
/// sessions and 256 capabilities are out at most.
pub proof fn law_secrets_last_as_long_as_they_say(now: u64)
    requires
        now < 0x1000_0000_0000_0000,
    ensures
        auth::until(now, auth::BROWSER_SESSION_SECONDS) == now + 12 * 60 * 60,
        auth::until(now, auth::HTML_CAPABILITY_SECONDS) == now + 5 * 60,
        auth::BROWSER_SESSION_LIMIT == 128,
        auth::HTML_CAPABILITY_LIMIT == 256,
{
}

/// A session's cookie is for the whole site, out of reach of scripts and of other sites, lasts as long
/// as it says, and over HTTPS goes over HTTPS only.
pub proof fn law_cookies_are_kept_close(secret: Seq<char>, seconds: u64)
    ensures
        auth::cookie_text(secret, seconds, false) == "glim_session="@ + secret
            + "; Path=/; HttpOnly; SameSite=Strict; Max-Age="@ + number::decimal(seconds as nat),
        auth::cookie_text(secret, seconds, true) == auth::cookie_text(secret, seconds, false)
            + "; Secure"@,
{
    reveal_strlit("");
    let plain = "glim_session="@ + secret + "; Path=/; HttpOnly; SameSite=Strict; Max-Age="@
        + number::decimal(seconds as nat);
    assert(plain + ""@ =~= plain);
}

// ---- requests ----

proof fn lemma_methods_differ()
    ensures
        "GET"@.len() == 3 && "GET"@[0] == 'G',
        "PUT"@.len() == 3 && "PUT"@[0] == 'P',
        "HEAD"@.len() == 4 && "HEAD"@[0] == 'H',
        "POST"@.len() == 4 && "POST"@[0] == 'P',
        "PATCH"@.len() == 5,
        "DELETE"@.len() == 6,
        "OPTIONS"@.len() == 7,
{
    reveal_strlit("GET");
    reveal_strlit("PUT");
    reveal_strlit("HEAD");
    reveal_strlit("POST");
    reveal_strlit("PATCH");
    reveal_strlit("DELETE");
    reveal_strlit("OPTIONS");
}

/// In token mode a request without credentials is served exactly where it is the health probe, a
/// log-in, the log-in page, a file of the frontend or a path with a capability. Any other is
/// challenged with 401 on the interface, and sent to log in elsewhere.
pub proof fn law_who_needs_no_credentials(
    access: Access,
    path: Seq<char>,
    method: Seq<char>,
    same_origin: bool,
)
    requires
        auth::token_access(access, path, method, None, same_origin),
    ensures
        access is Pass <==> {
            ||| path == "/api/v1/health"@
            ||| path == "/api/v1/auth/session"@ && method == "POST"@
            ||| path == "/login"@
            ||| path == "/assets/app.js"@
            ||| path == "/assets/pdf.worker.mjs"@
            ||| text::has_prefix(path, "/cap/"@)
        },
        !(access is Pass) && (path == "/api/v1"@ || text::has_prefix(path, "/api/v1/"@)) ==> access
            is Challenge,
        access matches Access::Challenge(answer) ==> answer@.status == 401 && answer@.code
            == "authentication_required"@,
        !(access is Pass) && !paths::is_v1(path) ==> access is LogIn,
        !(access is Refused),
{
}

/// In token mode the token opens everything, and a session opens what only reads, and what changes
/// things from the configured origin; elsewhere a session's change is refused with 403.
pub proof fn law_what_credentials_open(
    access: Access,
    path: Seq<char>,
    method: Seq<char>,
    by: AuthenticatedBy,
    same_origin: bool,
)
    requires
        auth::token_access(access, path, method, Some(by), same_origin),
    ensures
        by == AuthenticatedBy::Bearer ==> access is Pass,
        same_origin ==> access is Pass,
        method == "GET"@ || method == "HEAD"@ || method == "OPTIONS"@ ==> access is Pass,
        by == AuthenticatedBy::Cookie && !same_origin && text::has_prefix(path, "/api/v1/posts"@) && (
        method == "POST"@ || method == "DELETE"@ || method == "PUT"@ || method == "PATCH"@) ==> access
            is Refused,
        access matches Access::Refused(answer) ==> answer@.status == 403 && answer@.code
            == "origin_rejected"@,
        access is Pass || access is Refused,
{
    lemma_methods_differ();
    if text::has_prefix(path, "/api/v1/posts"@) {
        reveal_strlit("/api/v1/posts");
        reveal_strlit("/api/v1/health");
        reveal_strlit("/api/v1/auth/session");
        reveal_strlit("/login");
        reveal_strlit("/assets/app.js");
        reveal_strlit("/assets/pdf.worker.mjs");
        reveal_strlit("/cap/");
        assert(path[8] == path.take(13)[8]);
        assert(path[1] == path.take(13)[1]);
        assert(path.take(13)[8] == 'p');
        assert(path.take(13)[1] == 'a');
        assert(path.take(13)[2] == 'p' && path[2] == path.take(13)[2]);
        assert("/api/v1/health"@[8] == 'h');
        assert("/api/v1/auth/session"@[8] == 'a');
        assert("/login"@[1] == 'l');
        assert("/assets/app.js"@[2] == 's');
        assert("/assets/pdf.worker.mjs"@[2] == 's');
        if text::has_prefix(path, "/cap/"@) {
            assert(path.take(5)[1] == 'c');
        }
    }
}

/// In trusted-proxy mode everyone may probe the health, a listed proxy may read, and may change things
/// unless a browser sent the change from elsewhere than the configured origin.
pub proof fn law_what_proxies_may(
    path: Seq<char>,
    method: Seq<char>,
    listed: bool,
    by_browser: bool,
    from_origin: bool,
)
    ensures
        ({
            let access = auth::proxy_access(path, method, listed, by_browser, from_origin);
            let answer = auth::proxy_refusal_answer(access);
            &&& path == "/api/v1/health"@ ==> access == ProxyAccess::Pass
            &&& path != "/api/v1/health"@ && !listed ==> access == ProxyAccess::PeerRefused
            &&& listed && (method == "GET"@ || method == "HEAD"@ || method == "OPTIONS"@) ==> access
                == ProxyAccess::Pass
            &&& listed && (!by_browser || from_origin) ==> access == ProxyAccess::Pass
            &&& path != "/api/v1/health"@ && listed && by_browser && !from_origin && (method == "POST"@
                || method == "DELETE"@ || method == "PUT"@ || method == "PATCH"@) ==> access
                == ProxyAccess::OriginRefused
            &&& access == ProxyAccess::Pass <==> answer is None
            &&& answer matches Some(told) ==> told.status == 403
            &&& access == ProxyAccess::PeerRefused ==> answer->0.code == "peer_rejected"@
            &&& access == ProxyAccess::OriginRefused ==> answer->0.code == "origin_rejected"@
        }),
{
    lemma_methods_differ();
}

/// The support files of a file stand below its post and its position.
pub proof fn law_support_files_stand_below_their_file(post_id: i64, position: u32)
    ensures
        post_id > 0 ==> auth::support_prefix(post_id, position) == "/api/v1/posts/"@ + number::decimal(
            post_id as nat,
        ) + "/files/"@ + number::decimal(position as nat) + "/support/"@,
{
}

// ---- manifests ----

/// All parts that files declare, in order: each file's own, then those of its assets.
pub open spec fn parts_in_order(files: Seq<ManifestFile>) -> Seq<Seq<char>>
    decreases files.len(),
{
    if files.len() == 0 {
        Seq::empty()
    } else {
        parts_in_order(files.drop_last()).push(files.last().part@) + asset_names(
            files.last().support_assets@,
        )
    }
}

/// The parts of assets.
pub open spec fn asset_names(assets: Seq<ManifestSupportAsset>) -> Seq<Seq<char>> {
    assets.map_values(|asset: ManifestSupportAsset| asset.part@)
}

/// Whether no two assets of a file have the same path.
pub open spec fn paths_differ(assets: Seq<ManifestSupportAsset>) -> bool {
    forall|j: int, k: int|
        0 <= j < k < assets.len() ==> (#[trigger] assets[j]).relative_path@ != (
        #[trigger] assets[k]).relative_path@
}

/// Whether names are all there and all different.
pub open spec fn are_names(names: Seq<Seq<char>>) -> bool {
    names.no_duplicates() && forall|i: int| 0 <= i < names.len() ==> (#[trigger] names[i]).len() > 0
}

proof fn lemma_assets(
    assets: Seq<ManifestSupportAsset>,
    seen: Seq<Seq<char>>,
    j: int,
)
    requires
        0 <= j <= assets.len(),
        are_names(seen),
        forall|a: int, b: int|
            0 <= a < b < j ==> (#[trigger] assets[a]).relative_path@ != (
            #[trigger] assets[b]).relative_path@,
    ensures
        manifest::asset_parts(assets, seen, j) is Ok <==> are_names(
            seen + asset_names(assets).skip(j),
        ) && paths_differ(assets),
        manifest::asset_parts(assets, seen, j) matches Ok(found) ==> found == seen + asset_names(
            assets,
        ).skip(j),
    decreases assets.len() - j,
{
    let rest = asset_names(assets).skip(j);
    if j < assets.len() {
        let name = assets[j].part@;
        assert(rest[0] == name);
        let whole = seen + rest;
        assert(whole[seen.len() as int] == name);
        if name.len() == 0 {
            assert(!are_names(whole));
        } else if seen.contains(name) {
            let i = choose|i: int| 0 <= i < seen.len() && seen[i] == name;
            assert(whole[i] == name);
            assert(!are_names(whole));
        } else if manifest::repeats_path(assets, j) {
            let k = choose|k: int|
                0 <= k < j && (#[trigger] assets[k]).relative_path@ == assets[j].relative_path@;
            assert(!paths_differ(assets)) by {
                assert(assets[k].relative_path@ == assets[j].relative_path@);
            }
        } else {
            let now = seen.push(name);
            assert(are_names(now)) by {
                assert forall|i: int| 0 <= i < now.len() implies (#[trigger] now[i]).len() > 0 by {
                    if i < seen.len() {
                        assert(now[i] == seen[i]);
                    }
                }
            }
            assert(now + asset_names(assets).skip(j + 1) =~= whole);
            lemma_assets(assets, now, j + 1);
        }
    } else {
        assert(seen + rest =~= seen);
    }
}

proof fn lemma_files(files: Seq<ManifestFile>, seen: Seq<Seq<char>>, i: int)
    requires
        0 <= i <= files.len(),
        seen == parts_in_order(files.take(i)),
        are_names(seen),
        forall|k: int| 0 <= k < i ==> paths_differ((#[trigger] files[k]).support_assets@),
    ensures
        manifest::file_parts(files, seen, i) is Ok <==> are_names(parts_in_order(files)) && (forall|
            k: int,
        |
            0 <= k < files.len() ==> paths_differ((#[trigger] files[k]).support_assets@)),
        manifest::file_parts(files, seen, i) matches Ok(found) ==> found == parts_in_order(files),
    decreases files.len() - i,
{
    if i < files.len() {
        let file = files[i];
        let name = file.part@;
        let assets = file.support_assets@;
        assert(files.take(i + 1).drop_last() =~= files.take(i));
        assert(files.take(i + 1).last() == file);
        let with_file = seen.push(name);
        let next = with_file + asset_names(assets);
        assert(next == parts_in_order(files.take(i + 1)));
        lemma_prefix(files, i + 1);
        let whole = parts_in_order(files);
        assert(whole.take(next.len() as int)[seen.len() as int] == name);
        if name.len() == 0 {
            assert(whole[seen.len() as int].len() == 0);
        } else if seen.contains(name) {
            let k = choose|k: int| 0 <= k < seen.len() && seen[k] == name;
            assert(whole.take(next.len() as int)[k] == name);
            assert(whole[k] == whole[seen.len() as int]);
        } else {
            assert(are_names(with_file)) by {
                assert forall|k: int| 0 <= k < with_file.len() implies (#[trigger] with_file[k]).len()
                    > 0 by {
                    if k < seen.len() {
                        assert(with_file[k] == seen[k]);
                    }
                }
            }
            assert(asset_names(assets).skip(0) =~= asset_names(assets));
            lemma_assets(assets, with_file, 0);
            if are_names(next) && paths_differ(assets) {
                lemma_files(files, next, i + 1);
            } else if !are_names(next) {
                assert(!are_names(whole)) by {
                    if are_names(whole) {
                        assert forall|k: int| 0 <= k < next.len() implies (#[trigger] next[k]).len()
                            > 0 by {
                            assert(next[k] == whole[k]);
                        }
                        assert forall|a: int, b: int|
                            0 <= a < next.len() && 0 <= b < next.len() && a != b implies next[a]
                            != next[b] by {
                            assert(next[a] == whole[a] && next[b] == whole[b]);
                        }
                        assert(next.no_duplicates());
                    }
                }
            }
        }
    } else {
        assert(files.take(i) =~= files);
    }
}

proof fn lemma_prefix(files: Seq<ManifestFile>, i: int)
    requires
        0 <= i <= files.len(),
    ensures
        parts_in_order(files.take(i)).len() <= parts_in_order(files).len(),
        parts_in_order(files).take(parts_in_order(files.take(i)).len() as int) == parts_in_order(
            files.take(i),
        ),
    decreases files.len(),
{
    let whole = parts_in_order(files);
    if i < files.len() {
        let before = files.drop_last();
        lemma_prefix(before, i);
        assert(before.take(i) =~= files.take(i));
        let part = parts_in_order(files.take(i));
        assert(whole.take(part.len() as int) =~= parts_in_order(before).take(part.len() as int));
    } else {
        assert(files.take(i) =~= files);
        assert(whole.take(whole.len() as int) =~= whole);
    }
}

/// A manifest is accepted exactly where nothing that it must say is blank, its provenance is sound, it
/// has a file and at most 256 parts, every part has a name of its own, and no two assets of a file
/// share a path; and then the names of its parts are those that it declares, in order.
pub proof fn law_which_manifests_are_accepted(declared: PublicationManifest)
    ensures
        manifest::declared_parts(declared) is Ok <==> {
            &&& !text::is_blank(declared.integration_namespace@)
            &&& !text::is_blank(declared.external_key@)
            &&& !text::is_blank(declared.project_label@)
            &&& !text::is_blank(declared.working_directory@)
            &&& !text::is_blank(declared.title@)
            &&& !text::is_blank(declared.commentary@)
            &&& declared.git matches Some(git) ==> read::is_valid_provenance(
                git.root@,
                text::optional(git.branch),
                text::optional(git.commit),
            )
            &&& declared.files@.len() > 0
            &&& parts_in_order(declared.files@).len() <= 256
            &&& are_names(parts_in_order(declared.files@))
            &&& forall|k: int|
                0 <= k < declared.files@.len() ==> paths_differ(
                    (#[trigger] declared.files@[k]).support_assets@,
                )
        },
        manifest::declared_parts(declared) matches Ok(names) ==> names == parts_in_order(
            declared.files@,
        ),
{
    let files = declared.files@;
    assert(files.take(0) =~= Seq::<ManifestFile>::empty());
    lemma_files(files, Seq::empty(), 0);
    lemma_count(files);
}

proof fn lemma_count(files: Seq<ManifestFile>)
    ensures
        manifest::part_count(files) == parts_in_order(files).len(),
    decreases files.len(),
{
    if files.len() > 0 {
        lemma_count(files.drop_last());
    }
}

/// A manifest that is not accepted is answered with 422, and one that leaves something blank is told
/// what it left blank.
pub proof fn law_refused_manifests_are_told(declared: PublicationManifest)
    requires
        manifest::declared_parts(declared) is Err,
    ensures
        ({
            let answer = manifest::declared_parts(declared)->Err_0;
            let namespace = declared.integration_namespace@;
            let key = declared.external_key@;
            let label = declared.project_label@;
            let directory = declared.working_directory@;
            &&& answer.status == 422
            &&& text::is_blank(namespace) ==> tells_field(answer, "integration_namespace"@)
            &&& !text::is_blank(namespace) && text::is_blank(key) ==> tells_field(
                answer,
                "external_key"@,
            )
            &&& !text::is_blank(namespace) && !text::is_blank(key) && text::is_blank(label)
                ==> tells_field(answer, "project_label"@)
            &&& !text::is_blank(namespace) && !text::is_blank(key) && !text::is_blank(label)
                && text::is_blank(directory) ==> tells_field(answer, "working_directory"@)
            &&& !text::is_blank(namespace) && !text::is_blank(key) && !text::is_blank(label)
                && !text::is_blank(directory) && text::is_blank(declared.title@) ==> tells_field(
                answer,
                "title"@,
            )
            &&& !text::is_blank(namespace) && !text::is_blank(key) && !text::is_blank(label)
                && !text::is_blank(directory) && !text::is_blank(declared.title@) && text::is_blank(
                declared.commentary@,
            ) ==> tells_field(answer, "commentary"@)
        }),
{
    lemma_file_faults(declared.files@, Seq::empty(), 0);
}

/// Whether an answer says that a field is blank.
pub open spec fn tells_field(answer: ErrorModel, field: Seq<char>) -> bool {
    answer.code == "validation_failed"@ && answer.details == seq![
        ("field"@, ValueModel::Text(field)),
    ]
}

proof fn lemma_asset_faults(assets: Seq<ManifestSupportAsset>, seen: Seq<Seq<char>>, j: int)
    ensures
        manifest::asset_parts(assets, seen, j) matches Err(answer) ==> answer.status == 422,
    decreases assets.len() - j,
{
    if 0 <= j < assets.len() && manifest::name_fault(assets[j].part@, seen) is None {
        lemma_asset_faults(assets, seen.push(assets[j].part@), j + 1);
    }
}

proof fn lemma_file_faults(files: Seq<ManifestFile>, seen: Seq<Seq<char>>, i: int)
    ensures
        manifest::file_parts(files, seen, i) matches Err(answer) ==> answer.status == 422,
    decreases files.len() - i,
{
    if 0 <= i < files.len() && manifest::name_fault(files[i].part@, seen) is None {
        let with_file = seen.push(files[i].part@);
        lemma_asset_faults(files[i].support_assets@, with_file, 0);
        if let Ok(now) = manifest::asset_parts(files[i].support_assets@, with_file, 0) {
            lemma_file_faults(files, now, i + 1);
        }
    }
}

/// A part is taken exactly where it is named, is not a second manifest, was declared and has not come
/// before; otherwise it is answered with 422 and with which of these it was.
pub proof fn law_which_parts_are_taken(
    declared: Seq<Seq<char>>,
    staged: Seq<Seq<char>>,
    name: Option<Seq<char>>,
)
    ensures
        ({
            let fault = manifest::fault_of_part(declared, staged, name);
            &&& fault is None <==> name is Some && (name->0).len() > 0 && name->0 != "manifest"@
                && declared.contains(name->0) && !staged.contains(name->0)
            &&& fault matches Some(answer) ==> answer.status == 422
            &&& name is None || (name->0).len() == 0 ==> fault->0.code == "invalid_part_name"@
            &&& name == Some("manifest"@) ==> fault->0.code == "duplicate_manifest"@
            &&& name is Some && (name->0).len() > 0 && name->0 != "manifest"@ && !declared.contains(
                name->0,
            ) ==> fault->0.code == "unexpected_part"@
            &&& name is Some && (name->0).len() > 0 && name->0 != "manifest"@ && declared.contains(
                name->0,
            ) && staged.contains(name->0) ==> fault->0.code == "duplicate_part"@
        }),
{
    reveal_strlit("manifest");
    assert("manifest"@.len() == 8);
}

} // verus!

//! What becomes of sessions, capabilities and manifests as requests come in.
use vstd::prelude::*;
use crate::api::auth;
use crate::api::auth::{GrantModel, GrantScope, Grants};
use crate::api::error::ApiError;
use crate::api::manifest;
use crate::daemon::token::AccessToken;
use crate::number;

verus! {

proof fn lemma_found(grants: Seq<GrantModel>, secret: Seq<char>, i: int, k: int)
    requires
        0 <= i,
    ensures
        auth::position(grants, secret, i) matches Some(at) ==> i <= at < grants.len() && grants[at].secret
            == secret,
        i <= k < grants.len() && grants[k].secret == secret ==> auth::position(grants, secret, i) is Some,
    decreases grants.len() - i,
{
    if i < grants.len() && grants[i].secret != secret {
        lemma_found(grants, secret, i + 1, k);
    }
}

proof fn lemma_lives(grants: Seq<GrantModel>, now: u64, grant: GrantModel)
    ensures
        auth::live(grants, now).contains(grant) <==> grants.contains(grant) && grant.expires_at > now,
    decreases grants.len(),
{
    if grants.len() > 0 {
        let rest = grants.drop_last();
        let before = auth::live(rest, now);
        lemma_lives(rest, now, grant);
        assert(grants =~= rest.push(grants.last()));
        lemma_pushed(rest, grants.last(), grant);
        lemma_pushed(before, grants.last(), grant);
    }
}

proof fn lemma_pushed(list: Seq<GrantModel>, last: GrantModel, grant: GrantModel)
    ensures
        list.push(last).contains(grant) <==> list.contains(grant) || last == grant,
{
    let now = list.push(last);
    if list.contains(grant) {
        let i = choose|i: int| 0 <= i < list.len() && list[i] == grant;
        assert(now[i] == grant);
    }
    assert(now[list.len() as int] == last);
    if now.contains(grant) && last != grant {
        let i = choose|i: int| 0 <= i < now.len() && now[i] == grant;
        assert(list[i] == grant);
    }
}

proof fn lemma_granted(grants: Seq<GrantModel>, grant: GrantModel)
    ensures
        auth::granted(grants, grant).contains(grant),
{
    lemma_found(grants, grant.secret, 0, 0);
    match auth::position(grants, grant.secret, 0) {
        Some(i) => {
            assert(grants.update(i, grant)[i] == grant);
        },
        None => {
            lemma_pushed(grants, grant, grant);
        },
    }
}

/// Whoever has the token is logged in: a session is kept for twelve hours, under the secret that the
/// cookie brings to the browser. Nobody else is, and nothing changes.
pub proof fn law_the_token_logs_in(
    sessions: &mut Grants,
    token: &AccessToken,
    supplied: &str,
    now: Option<u64>,
    secure: bool,
    result: Result<String, ApiError>,
)
    requires
        call_ensures(auth::log_in, (sessions, token, supplied, now, secure), result),
    ensures
        result is Ok ==> supplied@ == token@ && now is Some,
        supplied@ != token@ ==> (result matches Err(answer) && answer@.status == 401 && answer@.code
            == "invalid_credentials"@),
        supplied@ == token@ && result is Err ==> result->Err_0@.status == 500,
        result is Err ==> final(sessions)@ == old(sessions)@,
        result matches Ok(cookie) ==> exists|secret: Seq<char>|
            {
                &&& #[trigger] cookie_starts(cookie@, secret)
                &&& final(sessions)@.contains(
                    GrantModel { secret, expires_at: auth::until(now->0, 43_200), scope: None },
                )
            },
{
    if result is Ok {
        let cookie = result->Ok_0@;
        let secret = choose|secret: Seq<char>| #[trigger]
            auth::session_opened(old(sessions)@, final(sessions)@, cookie, secret, now->0, secure);
        lemma_granted(
            auth::with_room(auth::live(old(sessions)@, now->0), auth::BROWSER_SESSION_LIMIT as nat),
            GrantModel { secret, expires_at: auth::until(now->0, 43_200), scope: None },
        );
        let head = "glim_session="@ + secret;
        let tail = "; Path=/; HttpOnly; SameSite=Strict; Max-Age="@ + number::decimal(43_200) + (if secure {
            "; Secure"@
        } else {
            ""@
        });
        assert(cookie =~= head + tail);
        assert(cookie.take(head.len() as int) =~= head);
        assert(cookie_starts(cookie, secret));
    }
}

/// Whether a cookie brings the secret of a session.
pub open spec fn cookie_starts(cookie: Seq<char>, secret: Seq<char>) -> bool {
    let head = "glim_session="@ + secret;
    head.len() <= cookie.len() && cookie.take(head.len() as int) == head
}

/// Logging out clears the browser's cookie; no session is made, and none but one is given up.
pub proof fn law_logging_out_gives_up_one_session(
    sessions: &mut Grants,
    cookies: &[Vec<u8>],
    secure: bool,
    cookie: String,
    grant: GrantModel,
)
    requires
        call_ensures(auth::log_out, (sessions, cookies, secure), cookie),
    ensures
        cookie@ == "glim_session="@ + Seq::<char>::empty() + "; Path=/; HttpOnly; SameSite=Strict; Max-Age="@
            + number::decimal(0) + (if secure {
            "; Secure"@
        } else {
            ""@
        }),
        final(sessions)@.contains(grant) ==> old(sessions)@.contains(grant),
        old(sessions)@.len() - 1 <= final(sessions)@.len() <= old(sessions)@.len(),
        ({
            let named = auth::cookie_of(auth::values(cookies@), "glim_session"@, 0);
            &&& named is None ==> final(sessions)@ == old(sessions)@
            &&& named is Some && old(sessions)@.contains(grant) && grant.secret != named->0
                ==> final(sessions)@.contains(grant)
        }),
{
    let before = old(sessions)@;
    let after = final(sessions)@;
    let named = auth::cookie_of(auth::values(cookies@), "glim_session"@, 0);
    if named is Some {
        lemma_found(before, named->0, 0, 0);
        if let Some(i) = auth::position(before, named->0, 0) {
            if after.contains(grant) {
                let k = choose|k: int| 0 <= k < after.len() && after[k] == grant;
                if k < i {
                    assert(before[k] == grant);
                } else {
                    assert(before[k + 1] == grant);
                }
            }
            if before.contains(grant) && grant.secret != named->0 {
                let k = choose|k: int| 0 <= k < before.len() && before[k] == grant;
                if k < i {
                    assert(after[k] == grant);
                } else {
                    assert(after[k - 1] == grant);
                }
            }
        }
    }
}

/// A capability is handed out for one file, for five minutes, under a path that names its secret and
/// the file.
pub proof fn law_capabilities_are_handed_out(
    capabilities: &mut Grants,
    secret: &str,
    post_id: i64,
    position: u32,
    now: u64,
    prefix: String,
)
    requires
        call_ensures(auth::open_capability, (capabilities, secret, post_id, position, now), prefix),
    ensures
        final(capabilities)@.contains(
            GrantModel {
                secret: secret@,
                expires_at: auth::until(now, 300),
                scope: Some(GrantScope { post_id, position }),
            },
        ),
        prefix@ == "/cap/"@ + secret@ + ("/api/v1/posts/"@ + number::signed_decimal(post_id as int)
            + "/files/"@ + number::decimal(position as nat) + "/support/"@),
{
    lemma_granted(
        auth::with_room(
            auth::live(old(capabilities)@, now),
            auth::HTML_CAPABILITY_LIMIT as nat,
        ),
        GrantModel {
            secret: secret@,
            expires_at: auth::until(now, 300),
            scope: Some(GrantScope { post_id, position }),
        },
    );
}

/// A capability opens a file only where one with its secret was handed out for that file and has not
/// ended, and always where that is the only one with its secret; then it lasts another five minutes.
/// Otherwise nothing is found.
pub proof fn law_capabilities_are_used(
    capabilities: &mut Grants,
    secret: &str,
    post_id: i64,
    position: u32,
    now: u64,
    result: Result<(), ApiError>,
    i: int,
)
    requires
        call_ensures(auth::use_capability, (capabilities, secret, post_id, position, now), result),
    ensures
        result is Ok ==> exists|k: int|
            {
                &&& 0 <= k < old(capabilities)@.len()
                &&& (#[trigger] old(capabilities)@[k]).secret == secret@
                &&& old(capabilities)@[k].scope == Some(GrantScope { post_id, position })
                &&& old(capabilities)@[k].expires_at > now
            },
        result is Ok ==> final(capabilities)@.contains(
            GrantModel {
                secret: secret@,
                expires_at: auth::until(now, 300),
                scope: Some(GrantScope { post_id, position }),
            },
        ),
        ({
            &&& 0 <= i < old(capabilities)@.len()
            &&& old(capabilities)@[i].secret == secret@
            &&& old(capabilities)@[i].scope == Some(GrantScope { post_id, position })
            &&& old(capabilities)@[i].expires_at > now
            &&& forall|k: int|
                0 <= k < old(capabilities)@.len() && (#[trigger] old(capabilities)@[k]).secret == secret@
                    ==> k == i
        }) ==> result is Ok,
        result matches Err(answer) ==> answer@.status == 404 && answer@.code == "artifact_not_found"@,
{
    let before = old(capabilities)@;
    let current = auth::live(before, now);
    lemma_found(current, secret@, 0, 0);
    if let Some(k) = auth::position(current, secret@, 0) {
        lemma_lives(before, now, current[k]);
        assert(current.contains(current[k]));
        let m = choose|m: int| 0 <= m < before.len() && before[m] == current[k];
        if result is Ok {
            let renewed = GrantModel { expires_at: auth::until(now, 300), ..current[k] };
            assert(final(capabilities)@[k] == renewed);
        }
    }
    if 0 <= i < before.len() && before[i].secret == secret@ && before[i].expires_at > now {
        lemma_lives(before, now, before[i]);
        assert(before.contains(before[i]));
        let j = choose|j: int| 0 <= j < current.len() && current[j] == before[i];
        lemma_found(current, secret@, 0, j);
    }
}

/// The bytes of a manifest are put one after the other, 64 KiB at most; what would be longer is refused
/// with 413 and leaves what was there.
pub proof fn law_manifests_are_put_together(
    bytes: &mut Vec<u8>,
    piece: &[u8],
    result: Result<(), ApiError>,
)
    requires
        call_ensures(manifest::extend_manifest, (bytes, piece), result),
    ensures
        result is Ok <==> old(bytes)@.len() + piece@.len() <= 64 * 1024,
        result is Ok ==> final(bytes)@ == old(bytes)@ + piece@,
        result matches Err(answer) ==> answer@.status == 413 && answer@.code == "manifest_too_large"@
            && final(bytes)@ == old(bytes)@,
{
}

} // verus!

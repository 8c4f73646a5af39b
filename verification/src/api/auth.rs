//! Who may ask: bearer tokens, browser sessions, capabilities and origins.
use vstd::prelude::*;
use vstd::utf8::*;
use crate::api::error;
use crate::api::error::ApiError;
use crate::api::paths;
use crate::daemon::origin::IpAddress;
use crate::daemon::token::AccessToken;
use crate::number;
use crate::random;
use crate::text;

verus! {

/// The number of browser sessions that are kept.
pub const BROWSER_SESSION_LIMIT: usize = 128;

/// How long a browser session lasts: twelve hours.
pub const BROWSER_SESSION_SECONDS: u64 = 43_200;

/// The number of capabilities that are kept.
pub const HTML_CAPABILITY_LIMIT: usize = 256;

/// How long a capability lasts: five minutes.
pub const HTML_CAPABILITY_SECONDS: u64 = 300;

// ---- comparing secrets ----

/// Whether two texts are the same, in a time that depends on their lengths alone.
pub fn constant_time_equal(expected: &str, supplied: &str) -> (same: bool)
    ensures
        same == (expected@ == supplied@),
{
    proof {
        encode_utf8_decode_utf8(expected@);
        encode_utf8_decode_utf8(supplied@);
    }
    let left = expected.as_bytes();
    let right = supplied.as_bytes();
    if left.len() != right.len() {
        return false;
    }
    let mut difference: u8 = 0;
    let mut i: usize = 0;
    assert(left@.take(0) =~= right@.take(0));
    while i < left.len()
        invariant
            i <= left.len(),
            left.len() == right.len(),
            difference == 0 <==> left@.take(i as int) == right@.take(i as int),
        decreases left.len() - i,
    {
        let a: u8 = left[i];
        let b: u8 = right[i];
        proof {
            assert((difference | (a ^ b)) == 0 <==> difference == 0 && a == b) by (bit_vector);
            assert(left@.take(i + 1) =~= left@.take(i as int).push(a));
            assert(right@.take(i + 1) =~= right@.take(i as int).push(b));
            if left@.take(i + 1) == right@.take(i + 1) {
                assert(left@.take(i + 1)[i as int] == right@.take(i + 1)[i as int]);
                assert(left@.take(i as int) =~= left@.take(i + 1).drop_last());
                assert(right@.take(i as int) =~= right@.take(i + 1).drop_last());
            }
        }
        difference = difference | (a ^ b);
        i += 1;
    }
    assert(left@.take(left@.len() as int) =~= left@);
    assert(right@.take(right@.len() as int) =~= right@);
    difference == 0
}

// ---- headers ----

/// Whether a header's value is text: visible ASCII, spaces and tabs.
pub open spec fn is_header_text(value: Seq<u8>) -> bool {
    forall|i: int| 0 <= i < value.len() ==> (32 <= #[trigger] value[i] < 127 || value[i] == 9)
}

/// The text of a header's value, where it is text.
pub open spec fn header_chars(value: Seq<u8>) -> Seq<char> {
    value.map_values(|b: u8| b as char)
}

/// The text of a header's value, where it is text.
pub fn header_text(value: &[u8]) -> (result: Option<String>)
    ensures
        match result {
            Some(content) => is_header_text(value@) && content@ == header_chars(value@),
            None => !is_header_text(value@),
        },
{
    let mut content = String::new();
    let mut i: usize = 0;
    while i < value.len()
        invariant
            i <= value.len(),
            content@ == header_chars(value@.take(i as int)),
            forall|j: int| 0 <= j < i ==> (32 <= #[trigger] value@[j] < 127 || value@[j] == 9),
        decreases value.len() - i,
    {
        let b: u8 = value[i];
        if !((32 <= b && b < 127) || b == 9) {
            assert(!(32 <= value@[i as int] < 127 || value@[i as int] == 9));
            return None;
        }
        content.push(b as char);
        assert(content@ =~= header_chars(value@.take(i + 1)));
        i += 1;
    }
    assert(value@.take(value@.len() as int) =~= value@);
    Some(content)
}

/// What follows the cookie's name and an equals sign in a part of a cookie header.
pub open spec fn cookie_in(part: Seq<char>, name: Seq<char>) -> Option<Seq<char>> {
    let middle = text::trimmed(part);
    let wanted = name.push('=');
    if text::has_prefix(middle, wanted) {
        Some(middle.skip(wanted.len() as int))
    } else {
        None
    }
}

/// The cookie in the first of the parts that holds it.
pub open spec fn cookie_from(parts: Seq<Seq<char>>, name: Seq<char>, i: int) -> Option<Seq<char>>
    decreases parts.len() - i,
{
    if i < 0 || i >= parts.len() {
        None
    } else if cookie_in(parts[i], name) is Some {
        cookie_in(parts[i], name)
    } else {
        cookie_from(parts, name, i + 1)
    }
}

/// The views of a list of header values.
pub open spec fn values(headers: Seq<Vec<u8>>) -> Seq<Seq<u8>> {
    headers.map_values(|value: Vec<u8>| value@)
}

/// The cookie in the first of the headers that holds it; headers that are not text are passed
/// over.
pub open spec fn cookie_of(headers: Seq<Seq<u8>>, name: Seq<char>, i: int) -> Option<Seq<char>>
    decreases headers.len() - i,
{
    if i < 0 || i >= headers.len() {
        None
    } else if is_header_text(headers[i]) && cookie_from(
        text::split(header_chars(headers[i]), ';'),
        name,
        0,
    ) is Some {
        cookie_from(text::split(header_chars(headers[i]), ';'), name, 0)
    } else {
        cookie_of(headers, name, i + 1)
    }
}

fn cookie_in_header(value: &str, name: &str) -> (result: Option<String>)
    ensures
        match result {
            Some(content) => cookie_from(text::split(value@, ';'), name@, 0) == Some(content@),
            None => cookie_from(text::split(value@, ';'), name@, 0) is None,
        },
{
    let parts = text::split_chars(&text::chars_of(value), ';');
    let mut wanted = text::chars_of(name);
    wanted.push('=');
    let mut i: usize = 0;
    while i < parts.len()
        invariant
            i <= parts.len(),
            wanted@ == name@.push('='),
            text::views(parts@) == text::split(value@, ';'),
            cookie_from(text::split(value@, ';'), name@, 0) == cookie_from(
                text::split(value@, ';'),
                name@,
                i as int,
            ),
        decreases parts.len() - i,
    {
        assert(text::views(parts@)[i as int] == parts@[i as int]@);
        let middle = text::trim_chars(&parts[i]);
        if text::starts_with(&middle, &wanted) {
            let rest = vstd::slice::slice_subrange(middle.as_slice(), wanted.len(), middle.len());
            assert(rest@ =~= middle@.skip(wanted@.len() as int));
            return Some(text::string_of(rest));
        }
        i += 1;
    }
    None
}

/// The value of the first cookie with the given name in the cookie headers of a request.
pub fn cookie_value(headers: &[Vec<u8>], name: &str) -> (result: Option<String>)
    ensures
        match result {
            Some(content) => cookie_of(values(headers@), name@, 0) == Some(content@),
            None => cookie_of(values(headers@), name@, 0) is None,
        },
{
    let mut i: usize = 0;
    while i < headers.len()
        invariant
            i <= headers.len(),
            cookie_of(values(headers@), name@, 0) == cookie_of(values(headers@), name@, i as int),
        decreases headers.len() - i,
    {
        assert(values(headers@)[i as int] == headers@[i as int]@);
        match header_text(&headers[i]) {
            Some(value) => match cookie_in_header(value.as_str(), name) {
                Some(content) => {
                    return Some(content);
                },
                None => {},
            },
            None => {},
        }
        i += 1;
    }
    None
}

// ---- grants: browser sessions and capabilities ----

/// What a capability opens: the support files of one file of a post.
#[derive(Debug, Clone, Copy, PartialEq, Eq, Structural)]
pub struct GrantScope {
    pub post_id: i64,
    pub position: u32,
}

/// A secret that was handed out, and until when it counts.
#[derive(Debug)]
pub struct Grant {
    pub secret: String,
    pub expires_at: u64,
    pub scope: Option<GrantScope>,
}

/// The model of a grant.
pub struct GrantModel {
    pub secret: Seq<char>,
    pub expires_at: u64,
    pub scope: Option<GrantScope>,
}

impl View for Grant {
    type V = GrantModel;

    open spec fn view(&self) -> GrantModel {
        GrantModel { secret: self.secret@, expires_at: self.expires_at, scope: self.scope }
    }
}

/// The secrets that are out, oldest first.
#[derive(Debug)]
pub struct Grants {
    grants: Vec<Grant>,
}

impl View for Grants {
    type V = Seq<GrantModel>;

    closed spec fn view(&self) -> Seq<GrantModel> {
        self.grants@.map_values(|grant: Grant| grant@)
    }
}

/// The grants that still count.
pub open spec fn live(grants: Seq<GrantModel>, now: u64) -> Seq<GrantModel>
    decreases grants.len(),
{
    if grants.len() == 0 {
        Seq::empty()
    } else {
        let before = live(grants.drop_last(), now);
        if grants.last().expires_at > now {
            before.push(grants.last())
        } else {
            before
        }
    }
}

/// The position of the first grant with the secret.
pub open spec fn position(grants: Seq<GrantModel>, secret: Seq<char>, i: int) -> Option<int>
    decreases grants.len() - i,
{
    if i < 0 || i >= grants.len() {
        None
    } else if grants[i].secret == secret {
        Some(i)
    } else {
        position(grants, secret, i + 1)
    }
}

/// The position of the grant that ends first: the earliest of those with the least time.
pub open spec fn oldest(grants: Seq<GrantModel>) -> int
    decreases grants.len(),
{
    if grants.len() <= 1 {
        0
    } else {
        let best = oldest(grants.drop_last());
        if grants.last().expires_at < grants[best].expires_at {
            grants.len() - 1
        } else {
            best
        }
    }
}

/// The grants with room for one more: where there are `limit` of them, the one that ends first is
/// given up.
pub open spec fn with_room(grants: Seq<GrantModel>, limit: nat) -> Seq<GrantModel> {
    if grants.len() >= limit && grants.len() > 0 {
        grants.remove(oldest(grants))
    } else {
        grants
    }
}

/// The grants with one more, which takes the place of one with the same secret.
pub open spec fn granted(grants: Seq<GrantModel>, grant: GrantModel) -> Seq<GrantModel> {
    match position(grants, grant.secret, 0) {
        Some(i) => grants.update(i, grant),
        None => grants.push(grant),
    }
}

/// The later of now plus a time, or the end of time.
pub open spec fn until(now: u64, seconds: u64) -> u64 {
    if now + seconds > u64::MAX {
        u64::MAX
    } else {
        (now + seconds) as u64
    }
}

proof fn lemma_position(grants: Seq<GrantModel>, secret: Seq<char>, i: int)
    ensures
        position(grants, secret, i) matches Some(k) ==> i <= k < grants.len() && grants[k].secret
            == secret,
    decreases grants.len() - i,
{
    if !(i < 0 || i >= grants.len()) && grants[i].secret != secret {
        lemma_position(grants, secret, i + 1);
    }
}

proof fn lemma_oldest(grants: Seq<GrantModel>)
    requires
        grants.len() > 0,
    ensures
        0 <= oldest(grants) < grants.len(),
        forall|i: int|
            0 <= i < grants.len() ==> grants[oldest(grants)].expires_at <= (
            #[trigger] grants[i]).expires_at,
    decreases grants.len(),
{
    if grants.len() > 1 {
        let before = grants.drop_last();
        lemma_oldest(before);
        assert forall|i: int| 0 <= i < grants.len() implies grants[oldest(grants)].expires_at <= (
        #[trigger] grants[i]).expires_at by {
            if i < before.len() {
                assert(before[i] == grants[i]);
            }
        }
    }
}

proof fn lemma_live_bounded(grants: Seq<GrantModel>, now: u64)
    ensures
        live(grants, now).len() <= grants.len(),
        forall|i: int|
            0 <= i < live(grants, now).len() ==> (#[trigger] live(grants, now)[i]).expires_at > now,
    decreases grants.len(),
{
    if grants.len() > 0 {
        lemma_live_bounded(grants.drop_last(), now);
    }
}

impl Grants {
    /// No secret is out.
    pub fn none() -> (grants: Self)
        ensures
            grants@ == Seq::<GrantModel>::empty(),
    {
        let grants = Grants { grants: Vec::new() };
        assert(grants@ =~= Seq::<GrantModel>::empty());
        grants
    }

    fn drop_expired(&mut self, now: u64)
        ensures
            final(self)@ == live(old(self)@, now),
    {
        let ghost before = self@;
        let mut i: usize = 0;
        let ghost mut seen: int = 0;
        proof {
            assert(before.skip(0) =~= before);
            assert(self@.skip(0) =~= self@);
            assert(self@.take(0) =~= Seq::<GrantModel>::empty());
            assert(before.take(0) =~= Seq::<GrantModel>::empty());
        }
        while i < self.grants.len()
            invariant
                i <= self.grants.len(),
                0 <= seen <= before.len(),
                before.len() - seen == self.grants.len() - i,
                self@.take(i as int) == live(before.take(seen), now),
                self@.skip(i as int) == before.skip(seen),
            decreases self.grants.len() - i,
        {
            let ghost current = self@;
            proof {
                assert(current[i as int] == current.skip(i as int)[0]);
                assert(before[seen] == before.skip(seen)[0]);
                assert(current[i as int] == self.grants@[i as int]@);
                assert(before.take(seen + 1).drop_last() =~= before.take(seen));
                assert(before.skip(seen + 1) =~= before.skip(seen).drop_first());
            }
            if self.grants[i].expires_at > now {
                proof {
                    assert(current.take(i + 1) =~= current.take(i as int).push(current[i as int]));
                    assert(current.skip(i + 1) =~= current.skip(i as int).drop_first());
                }
                i += 1;
            } else {
                self.grants.remove(i);
                proof {
                    assert(self@ =~= current.remove(i as int));
                    assert(self@.take(i as int) =~= current.take(i as int));
                    assert(self@.skip(i as int) =~= current.skip(i as int).drop_first());
                }
            }
            proof {
                seen = seen + 1;
            }
        }
        proof {
            assert(before.take(seen) =~= before);
            assert(self@.take(i as int) =~= self@);
        }
    }

    fn find(&self, secret: &str) -> (found: Option<usize>)
        ensures
            match found {
                Some(i) => position(self@, secret@, 0) == Some(i as int) && i < self@.len(),
                None => position(self@, secret@, 0) is None,
            },
    {
        let mut i: usize = 0;
        while i < self.grants.len()
            invariant
                i <= self.grants.len(),
                position(self@, secret@, 0) == position(self@, secret@, i as int),
            decreases self.grants.len() - i,
        {
            assert(self@[i as int] == self.grants@[i as int]@);
            if text::same_text(self.grants[i].secret.as_str(), secret) {
                return Some(i);
            }
            i += 1;
        }
        None
    }

    /// The number of secrets that are out.
    pub fn count(&self) -> (count: usize)
        ensures
            count == self@.len(),
    {
        self.grants.len()
    }

    /// Hands out a secret that counts for `seconds`: those that no longer count are dropped, and
    /// where `limit` are left the one that ends first is given up.
    pub fn grant(
        &mut self,
        secret: &str,
        scope: Option<GrantScope>,
        now: u64,
        seconds: u64,
        limit: usize,
    )
        ensures
            final(self)@ == granted(
                with_room(live(old(self)@, now), limit as nat),
                GrantModel { secret: secret@, expires_at: until(now, seconds), scope },
            ),
    {
        self.drop_expired(now);
        let ghost current = self@;
        if self.grants.len() >= limit && self.grants.len() > 0 {
            let mut best: usize = 0;
            let mut i: usize = 1;
            assert(current.take(1).len() == 1);
            while i < self.grants.len()
                invariant
                    1 <= i <= self.grants.len(),
                    best < i,
                    current == self@,
                    best == oldest(current.take(i as int)),
                decreases self.grants.len() - i,
            {
                assert(current.take(i + 1).drop_last() =~= current.take(i as int));
                assert(current[i as int] == self.grants@[i as int]@);
                assert(current[best as int] == self.grants@[best as int]@);
                if self.grants[i].expires_at < self.grants[best].expires_at {
                    best = i;
                }
                i += 1;
            }
            assert(current.take(current.len() as int) =~= current);
            self.grants.remove(best);
            assert(self@ =~= current.remove(best as int));
        }
        let ghost roomy = self@;
        let expires_at: u64 = match now.checked_add(seconds) {
            Some(time) => time,
            None => u64::MAX,
        };
        let grant = Grant { secret: text::copy_of(secret), expires_at, scope };
        match self.find(secret) {
            Some(i) => {
                self.grants.set(i, grant);
                assert(self@ =~= roomy.update(i as int, grant@));
            },
            None => {
                self.grants.push(grant);
                assert(self@ =~= roomy.push(grant@));
            },
        }
    }

    /// Whether a secret still counts. Those that no longer count are dropped.
    pub fn counts(&mut self, secret: &str, now: u64) -> (yes: bool)
        ensures
            final(self)@ == live(old(self)@, now),
            yes == position(live(old(self)@, now), secret@, 0) is Some,
    {
        self.drop_expired(now);
        self.find(secret).is_some()
    }

    /// Takes a secret back.
    pub fn revoke(&mut self, secret: &str)
        ensures
            final(self)@ == match position(old(self)@, secret@, 0) {
                Some(i) => old(self)@.remove(i),
                None => old(self)@,
            },
    {
        let ghost before = self@;
        match self.find(secret) {
            Some(i) => {
                self.grants.remove(i);
                assert(self@ =~= before.remove(i as int));
            },
            None => {},
        }
    }

    /// Whether a capability still counts and opens exactly this scope; if so, it counts for
    /// `seconds` from now. Those that no longer count are dropped.
    pub fn renew(&mut self, secret: &str, scope: GrantScope, now: u64, seconds: u64) -> (yes: bool)
        ensures
            match position(live(old(self)@, now), secret@, 0) {
                Some(i) => {
                    let grant = live(old(self)@, now)[i];
                    &&& yes == (grant.scope == Some(scope))
                    &&& final(self)@ == (if yes {
                        live(old(self)@, now).update(
                            i,
                            GrantModel { expires_at: until(now, seconds), ..grant },
                        )
                    } else {
                        live(old(self)@, now)
                    })
                },
                None => !yes && final(self)@ == live(old(self)@, now),
            },
    {
        self.drop_expired(now);
        let ghost current = self@;
        match self.find(secret) {
            Some(i) => {
                assert(current[i as int] == self.grants@[i as int]@);
                let held = self.grants[i].scope;
                let fits = match held {
                    Some(value) => value == scope,
                    None => false,
                };
                if fits {
                    let expires_at: u64 = match now.checked_add(seconds) {
                        Some(time) => time,
                        None => u64::MAX,
                    };
                    let renewed = Grant {
                        secret: self.grants[i].secret.clone(),
                        expires_at,
                        scope: held,
                    };
                    self.grants.set(i, renewed);
                    assert(self@ =~= current.update(i as int, renewed@));
                }
                fits
            },
            None => false,
        }
    }
}

/// However many secrets are handed out, no more than the limit are kept.
pub proof fn law_grants_are_bounded(
    grants: Seq<GrantModel>,
    grant: GrantModel,
    now: u64,
    limit: nat,
)
    requires
        limit > 0,
        grants.len() <= limit,
    ensures
        live(grants, now).len() <= limit,
        granted(with_room(live(grants, now), limit), grant).len() <= limit,
{
    lemma_live_bounded(grants, now);
    let current = live(grants, now);
    if current.len() > 0 {
        lemma_oldest(current);
    }
    lemma_position(with_room(current, limit), grant.secret, 0);
}

/// The grant that is given up for a new one ends no later than any that is kept.
pub proof fn law_the_oldest_goes_first(grants: Seq<GrantModel>, i: int)
    requires
        0 <= i < grants.len(),
    ensures
        0 <= oldest(grants) < grants.len(),
        grants[oldest(grants)].expires_at <= grants[i].expires_at,
{
    lemma_oldest(grants);
}

/// A secret counts only while its time has not come: whatever is found among the live grants
/// ends after now.
pub proof fn law_expired_secrets_do_not_count(
    grants: Seq<GrantModel>,
    secret: Seq<char>,
    now: u64,
)
    ensures
        position(live(grants, now), secret, 0) matches Some(i) ==> live(grants, now)[i].expires_at
            > now && live(grants, now)[i].secret == secret,
{
    lemma_live_bounded(grants, now);
    lemma_position(live(grants, now), secret, 0);
}

proof fn lemma_position_pushed(grants: Seq<GrantModel>, grant: GrantModel, i: int)
    requires
        position(grants, grant.secret, i) is None,
        0 <= i <= grants.len(),
    ensures
        position(grants.push(grant), grant.secret, i) == Some(grants.len() as int),
    decreases grants.len() - i,
{
    if i < grants.len() {
        assert(grants.push(grant)[i] == grants[i]);
        lemma_position_pushed(grants, grant, i + 1);
    }
}

proof fn lemma_position_updated(grants: Seq<GrantModel>, grant: GrantModel, k: int, i: int)
    requires
        position(grants, grant.secret, i) == Some(k),
        0 <= i <= grants.len(),
    ensures
        position(grants.update(k, grant), grant.secret, i) == Some(k),
    decreases grants.len() - i,
{
    lemma_position(grants, grant.secret, i);
    if i < k {
        assert(grants.update(k, grant)[i] == grants[i]);
        lemma_position_updated(grants, grant, k, i + 1);
    }
}

/// A secret that was handed out counts at once, until its time comes.
pub proof fn law_a_granted_secret_is_found(grants: Seq<GrantModel>, grant: GrantModel)
    ensures
        position(granted(grants, grant), grant.secret, 0) matches Some(i) && granted(
            grants,
            grant,
        )[i] == grant,
{
    lemma_position(grants, grant.secret, 0);
    match position(grants, grant.secret, 0) {
        Some(k) => {
            lemma_position_updated(grants, grant, k, 0);
        },
        None => {
            lemma_position_pushed(grants, grant, 0);
        },
    }
}

// ---- requests in token mode ----

/// Whether a request needs no credentials: the health probe, the login page and its session
/// endpoint, the frontend's files, and paths that carry a capability.
pub open spec fn is_public_request(path: Seq<char>, method: Seq<char>) -> bool {
    ||| path == "/api/v1/health"@
    ||| path == "/api/v1/auth/session"@ && method == "POST"@
    ||| path == "/login"@
    ||| path == "/assets/app.js"@
    ||| path == "/assets/pdf.worker.mjs"@
    ||| text::has_prefix(path, "/cap/"@)
}

/// Whether a method only reads.
pub open spec fn is_reading(method: Seq<char>) -> bool {
    method == "GET"@ || method == "HEAD"@ || method == "OPTIONS"@
}

/// How a request showed who sent it.
#[derive(Debug, Clone, Copy, PartialEq, Eq, Structural)]
pub enum AuthenticatedBy {
    Bearer,
    Cookie,
}

/// The headers of a request that decide on access.
#[derive(Debug)]
pub struct AccessHeaders {
    pub authorization: Option<Vec<u8>>,
    pub cookies: Vec<Vec<u8>>,
    pub origin: Option<Vec<u8>>,
}

/// Whether the header's value is text and the same as the given one.
pub open spec fn header_is(header: Option<Vec<u8>>, expected: Seq<char>) -> bool {
    header matches Some(value) && is_header_text(value@) && header_chars(value@) == expected
}

/// Whether the value of an authorization header carries the token.
pub open spec fn bears(value: Seq<u8>, token: Seq<char>) -> bool {
    &&& is_header_text(value)
    &&& text::has_prefix(header_chars(value), "Bearer "@)
    &&& header_chars(value).skip("Bearer "@.len() as int) == token
}

/// How the headers show who sent a request: by the token in an authorization header, or, where
/// there is no such header, by the cookie of a session that still counts.
pub open spec fn shown_by(
    headers: AccessHeaders,
    token: Seq<char>,
    sessions: Seq<GrantModel>,
    now: Option<u64>,
) -> Option<AuthenticatedBy> {
    match headers.authorization {
        Some(value) => if bears(value@, token) {
            Some(AuthenticatedBy::Bearer)
        } else {
            None
        },
        None => match (cookie_of(values(headers.cookies@), "glim_session"@, 0), now) {
            (Some(secret), Some(time)) => if position(live(sessions, time), secret, 0) is Some {
                Some(AuthenticatedBy::Cookie)
            } else {
                None
            },
            _ => None,
        },
    }
}

/// The sessions after the headers were looked at: where a session's cookie was looked up, those
/// that no longer count are gone.
pub open spec fn looked_up(
    headers: AccessHeaders,
    sessions: Seq<GrantModel>,
    now: Option<u64>,
) -> Seq<GrantModel> {
    match now {
        Some(time) => if headers.authorization is None && cookie_of(
            values(headers.cookies@),
            "glim_session"@,
            0,
        ) is Some {
            live(sessions, time)
        } else {
            sessions
        },
        None => sessions,
    }
}

fn bears_token(value: &[u8], token: &AccessToken) -> (yes: bool)
    ensures
        yes == bears(value@, token@),
{
    match header_text(value) {
        None => false,
        Some(content) => {
            let chars = text::chars_of(content.as_str());
            let prefix = text::chars_of("Bearer ");
            if !text::starts_with(&chars, &prefix) {
                return false;
            }
            let rest = vstd::slice::slice_subrange(chars.as_slice(), prefix.len(), chars.len());
            assert(rest@ =~= header_chars(value@).skip("Bearer "@.len() as int));
            constant_time_equal(token.expose(), text::string_of(rest).as_str())
        },
    }
}

/// How the headers show who sent a request. Looking for a session drops those that no longer
/// count.
pub fn authenticate_headers(
    headers: &AccessHeaders,
    token: &AccessToken,
    sessions: &mut Grants,
    now: Option<u64>,
) -> (result: Option<AuthenticatedBy>)
    ensures
        result == shown_by(*headers, token@, old(sessions)@, now),
        final(sessions)@ == looked_up(*headers, old(sessions)@, now),
{
    match &headers.authorization {
        Some(value) => {
            if bears_token(value, token) {
                Some(AuthenticatedBy::Bearer)
            } else {
                None
            }
        },
        None => match cookie_value(&headers.cookies, "glim_session") {
            None => None,
            Some(secret) => match now {
                None => None,
                Some(time) => {
                    if sessions.counts(secret.as_str(), time) {
                        Some(AuthenticatedBy::Cookie)
                    } else {
                        None
                    }
                },
            },
        },
    }
}

/// What becomes of a request.
#[derive(Debug)]
pub enum Access {
    /// It is served.
    Pass,
    /// It is sent to the login page.
    LogIn,
    /// It is answered that it needs credentials, with the bearer challenge.
    Challenge(ApiError),
    /// It is refused.
    Refused(ApiError),
}

/// What becomes of a request in token mode.
pub open spec fn token_access(
    access: Access,
    path: Seq<char>,
    method: Seq<char>,
    shown: Option<AuthenticatedBy>,
    same_origin: bool,
) -> bool {
    if is_public_request(path, method) {
        access is Pass
    } else {
        match shown {
            None => if paths::is_v1(path) {
                access matches Access::Challenge(answer) && answer@ == error::plain(
                    401,
                    "authentication_required"@,
                    "Authentication is required"@,
                )
            } else {
                access is LogIn
            },
            Some(by) => if by == AuthenticatedBy::Cookie && !is_reading(method) && !same_origin {
                access matches Access::Refused(answer) && answer@ == error::plain(
                    403,
                    "origin_rejected"@,
                    "Cookie-authenticated mutation requires the configured origin"@,
                )
            } else {
                access is Pass
            },
        }
    }
}

fn header_equals(header: &Option<Vec<u8>>, expected: &str) -> (yes: bool)
    ensures
        yes == header_is(*header, expected@),
{
    match header {
        None => false,
        Some(value) => match header_text(value) {
            None => false,
            Some(content) => text::same_text(content.as_str(), expected),
        },
    }
}

/// Decides on a request in token mode. Public requests pass; all others need the token or a
/// session, and one that a session vouches for may change things only from the configured origin.
pub fn authorize_request(
    path: &str,
    method: &str,
    headers: &AccessHeaders,
    token: &AccessToken,
    expected_origin: &str,
    sessions: &mut Grants,
    now: Option<u64>,
) -> (access: Access)
    ensures
        token_access(
            access,
            path@,
            method@,
            shown_by(*headers, token@, old(sessions)@, now),
            header_is(headers.origin, expected_origin@),
        ),
        final(sessions)@ == (if is_public_request(path@, method@) {
            old(sessions)@
        } else {
            looked_up(*headers, old(sessions)@, now)
        }),
{
    if text::same_text(path, "/api/v1/health") || (text::same_text(path, "/api/v1/auth/session")
        && text::same_text(method, "POST")) || text::same_text(path, "/login") || text::same_text(
        path,
        "/assets/app.js",
    ) || text::same_text(path, "/assets/pdf.worker.mjs") || text::text_starts_with(
        path,
        "/cap/",
    ) {
        return Access::Pass;
    }
    match authenticate_headers(headers, token, sessions, now) {
        None => {
            if paths::is_v1_path(path) {
                Access::Challenge(
                    ApiError::multipart(
                        401,
                        "authentication_required",
                        "Authentication is required",
                    ),
                )
            } else {
                Access::LogIn
            }
        },
        Some(by) => {
            let reading = text::same_text(method, "GET") || text::same_text(method, "HEAD")
                || text::same_text(method, "OPTIONS");
            if by == AuthenticatedBy::Cookie && !reading && !header_equals(
                &headers.origin,
                expected_origin,
            ) {
                Access::Refused(
                    ApiError::multipart(
                        403,
                        "origin_rejected",
                        "Cookie-authenticated mutation requires the configured origin",
                    ),
                )
            } else {
                Access::Pass
            }
        },
    }
}

/// A request that a session vouches for changes nothing unless it comes from the configured
/// origin.
pub proof fn law_cookie_mutations_need_the_origin(
    access: Access,
    path: Seq<char>,
    method: Seq<char>,
)
    requires
        token_access(access, path, method, Some(AuthenticatedBy::Cookie), false),
        access is Pass,
    ensures
        is_public_request(path, method) || is_reading(method),
{
}

/// Without credentials only public requests are served.
pub proof fn law_no_credentials_no_service(access: Access, path: Seq<char>, method: Seq<char>)
    requires
        token_access(access, path, method, None, false) || token_access(
            access,
            path,
            method,
            None,
            true,
        ),
        access is Pass,
    ensures
        is_public_request(path, method),
{
}

// ---- requests in trusted-proxy mode ----

/// What becomes of a request in trusted-proxy mode.
#[derive(Debug, Clone, Copy, PartialEq, Eq, Structural)]
pub enum ProxyAccess {
    Pass,
    /// The immediate peer is not on the list.
    PeerRefused,
    /// A browser's mutation did not come from the configured origin.
    OriginRefused,
}

/// Whether the immediate peer of a request is on the list of trusted proxies.
pub fn lists_peer(peers: &[IpAddress], peer: IpAddress) -> (yes: bool)
    ensures
        yes == peers@.contains(peer),
{
    let mut i: usize = 0;
    while i < peers.len()
        invariant
            i <= peers.len(),
            forall|j: int| 0 <= j < i ==> peers@[j] != peer,
        decreases peers.len() - i,
    {
        if peers[i] == peer {
            assert(peers@[i as int] == peer);
            return true;
        }
        i += 1;
    }
    false
}

/// What becomes of a request in trusted-proxy mode, by whether its peer is listed and whether a
/// browser sent it, which an origin or fetch-metadata header shows.
pub open spec fn proxy_access(
    path: Seq<char>,
    method: Seq<char>,
    peer_is_listed: bool,
    by_browser: bool,
    from_origin: bool,
) -> ProxyAccess {
    if path == "/api/v1/health"@ {
        ProxyAccess::Pass
    } else if !peer_is_listed {
        ProxyAccess::PeerRefused
    } else if !is_reading(method) && by_browser && !from_origin {
        ProxyAccess::OriginRefused
    } else {
        ProxyAccess::Pass
    }
}

/// Decides on a request in trusted-proxy mode: the health probe is open to all, every other
/// request must come from a listed peer, and a mutation that a browser sent, which an origin or
/// fetch-metadata header shows, must come from the configured origin.
pub fn authorize_proxied(
    path: &str,
    method: &str,
    peer_is_listed: bool,
    origin: &Option<Vec<u8>>,
    has_fetch_metadata: bool,
    expected_origin: &str,
) -> (access: ProxyAccess)
    ensures
        access == proxy_access(
            path@,
            method@,
            peer_is_listed,
            origin is Some || has_fetch_metadata,
            header_is(*origin, expected_origin@),
        ),
{
    if text::same_text(path, "/api/v1/health") {
        return ProxyAccess::Pass;
    }
    if !peer_is_listed {
        return ProxyAccess::PeerRefused;
    }
    let reading = text::same_text(method, "GET") || text::same_text(method, "HEAD")
        || text::same_text(method, "OPTIONS");
    if !reading && (origin.is_some() || has_fetch_metadata) && !header_equals(
        origin,
        expected_origin,
    ) {
        ProxyAccess::OriginRefused
    } else {
        ProxyAccess::Pass
    }
}

/// The answer to a request that trusted-proxy mode refuses.
pub open spec fn proxy_refusal_answer(access: ProxyAccess) -> Option<error::ErrorModel> {
    match access {
        ProxyAccess::Pass => None,
        ProxyAccess::PeerRefused => Some(
            error::plain(403, "peer_rejected"@, "Request peer is not trusted"@),
        ),
        ProxyAccess::OriginRefused => Some(
            error::plain(
                403,
                "origin_rejected"@,
                "Browser mutation requires the configured origin"@,
            ),
        ),
    }
}

/// The answer to a request that trusted-proxy mode refuses; none where it passes.
pub fn proxy_refusal(access: ProxyAccess) -> (refusal: Option<ApiError>)
    ensures
        match refusal {
            Some(answer) => proxy_refusal_answer(access) == Some(answer@),
            None => proxy_refusal_answer(access) is None,
        },
{
    match access {
        ProxyAccess::Pass => None,
        ProxyAccess::PeerRefused => Some(
            ApiError::multipart(403, "peer_rejected", "Request peer is not trusted"),
        ),
        ProxyAccess::OriginRefused => Some(
            ApiError::multipart(
                403,
                "origin_rejected",
                "Browser mutation requires the configured origin",
            ),
        ),
    }
}

/// In trusted-proxy mode, a peer that is not listed gets nothing but the health probe, and a
/// browser's mutation gets through only from the configured origin.
pub proof fn law_proxied_requests_are_guarded(
    path: Seq<char>,
    method: Seq<char>,
    peer_is_listed: bool,
    by_browser: bool,
    from_origin: bool,
)
    requires
        proxy_access(path, method, peer_is_listed, by_browser, from_origin) == ProxyAccess::Pass,
    ensures
        path == "/api/v1/health"@ || peer_is_listed,
        path == "/api/v1/health"@ || is_reading(method) || !by_browser || from_origin,
{
}

// ---- browser sessions ----

/// The text of a session cookie that lasts `seconds`.
pub open spec fn cookie_text(secret: Seq<char>, seconds: u64, secure: bool) -> Seq<char> {
    "glim_session="@ + secret + "; Path=/; HttpOnly; SameSite=Strict; Max-Age="@ + number::decimal(
        seconds as nat,
    ) + (if secure {
        "; Secure"@
    } else {
        ""@
    })
}

/// The text of a session cookie.
pub fn session_cookie(secret: &str, seconds: u64, secure: bool) -> (cookie: String)
    ensures
        cookie@ == cookie_text(secret@, seconds, secure),
{
    let mut cookie = text::joined3(
        "glim_session=",
        secret,
        "; Path=/; HttpOnly; SameSite=Strict; Max-Age=",
    );
    cookie.append(number::format_u64(seconds).as_str());
    let end = if secure {
        "; Secure"
    } else {
        ""
    };
    cookie.append(end);
    cookie
}

/// Opens a browser session with the given secret, and returns its cookie.
pub fn open_session(sessions: &mut Grants, secret: &str, now: u64, secure: bool) -> (cookie: String)
    ensures
        cookie@ == cookie_text(secret@, BROWSER_SESSION_SECONDS, secure),
        final(sessions)@ == granted(
            with_room(live(old(sessions)@, now), BROWSER_SESSION_LIMIT as nat),
            GrantModel {
                secret: secret@,
                expires_at: until(now, BROWSER_SESSION_SECONDS),
                scope: None,
            },
        ),
{
    sessions.grant(secret, None, now, BROWSER_SESSION_SECONDS, BROWSER_SESSION_LIMIT);
    session_cookie(secret, BROWSER_SESSION_SECONDS, secure)
}

/// Whether a log-in left the sessions as they should be with this secret.
pub open spec fn session_opened(
    before: Seq<GrantModel>,
    after: Seq<GrantModel>,
    cookie: Seq<char>,
    secret: Seq<char>,
    now: u64,
    secure: bool,
) -> bool {
    &&& crate::hex::is_lower_hex_text(secret, 64)
    &&& cookie == cookie_text(secret, BROWSER_SESSION_SECONDS, secure)
    &&& after == granted(
        with_room(live(before, now), BROWSER_SESSION_LIMIT as nat),
        GrantModel { secret, expires_at: until(now, BROWSER_SESSION_SECONDS), scope: None },
    )
}

/// Whether a log-in left the sessions as they should be with some secret.
pub open spec fn some_session_opened(
    before: Seq<GrantModel>,
    after: Seq<GrantModel>,
    cookie: Seq<char>,
    now: u64,
    secure: bool,
) -> bool {
    exists|secret: Seq<char>| #[trigger]
        session_opened(before, after, cookie, secret, now, secure)
}

/// Exchanges the token for a browser session with a random secret, and returns the session's
/// cookie. Without the token nothing is opened; without random bytes or a clock neither.
pub fn log_in(
    sessions: &mut Grants,
    token: &AccessToken,
    supplied: &str,
    now: Option<u64>,
    secure: bool,
) -> (result: Result<String, ApiError>)
    ensures
        match result {
            Ok(cookie) => {
                &&& supplied@ == token@
                &&& now is Some
                &&& some_session_opened(
                    old(sessions)@,
                    final(sessions)@,
                    cookie@,
                    now->0,
                    secure,
                )
            },
            Err(answer) => {
                &&& final(sessions)@ == old(sessions)@
                &&& answer@ == (if supplied@ != token@ {
                    error::plain(401, "invalid_credentials"@, "Credentials were rejected"@)
                } else {
                    error::internal_error()
                })
            },
        },
{
    if !constant_time_equal(token.expose(), supplied) {
        return Err(
            ApiError::multipart(401, "invalid_credentials", "Credentials were rejected"),
        );
    }
    let secret = match random::random_hex(32) {
        Ok(secret) => secret,
        Err(_) => {
            return Err(ApiError::internal());
        },
    };
    let time: u64 = match now {
        Some(time) => time,
        None => {
            return Err(ApiError::internal());
        },
    };
    let ghost before = sessions@;
    let cookie = open_session(sessions, secret.as_str(), time, secure);
    assert(session_opened(before, sessions@, cookie@, secret@, time, secure));
    Ok(cookie)
}

/// Closes the session of a request, where it carries one, and returns the cookie that removes it
/// from the browser.
pub fn log_out(sessions: &mut Grants, cookies: &[Vec<u8>], secure: bool) -> (cookie: String)
    ensures
        cookie@ == cookie_text(Seq::empty(), 0, secure),
        final(sessions)@ == match cookie_of(values(cookies@), "glim_session"@, 0) {
            Some(secret) => match position(old(sessions)@, secret, 0) {
                Some(i) => old(sessions)@.remove(i),
                None => old(sessions)@,
            },
            None => old(sessions)@,
        },
{
    match cookie_value(cookies, "glim_session") {
        Some(secret) => {
            sessions.revoke(secret.as_str());
        },
        None => {},
    }
    proof {
        reveal_strlit("");
        assert(""@ =~= Seq::<char>::empty());
    }
    session_cookie("", 0, secure)
}

/// The answer where there is no token to log in with.
pub fn authentication_not_configured() -> (answer: ApiError)
    ensures
        answer@ == error::plain(
            409,
            "authentication_not_configured"@,
            "Token authentication is not configured"@,
        ),
{
    ApiError::multipart(
        409,
        "authentication_not_configured",
        "Token authentication is not configured",
    )
}

// ---- capabilities of sandboxed HTML ----

/// The path of a file's support files.
pub open spec fn support_prefix(post_id: i64, file_position: u32) -> Seq<char> {
    "/api/v1/posts/"@ + number::signed_decimal(post_id as int) + "/files/"@ + number::decimal(
        file_position as nat,
    ) + "/support/"@
}

/// The path of a file's support files.
pub fn support_path_prefix(post_id: i64, file_position: u32) -> (prefix: String)
    ensures
        prefix@ == support_prefix(post_id, file_position),
{
    let mut prefix = text::joined3(
        "/api/v1/posts/",
        number::format_i64(post_id).as_str(),
        "/files/",
    );
    prefix.append(number::format_u64(file_position as u64).as_str());
    prefix.append("/support/");
    prefix
}

/// Hands out a capability with the given secret for the support files of one file, and returns
/// the path under which it opens them.
pub fn open_capability(
    capabilities: &mut Grants,
    secret: &str,
    post_id: i64,
    file_position: u32,
    now: u64,
) -> (prefix: String)
    ensures
        prefix@ == "/cap/"@ + secret@ + support_prefix(post_id, file_position),
        final(capabilities)@ == granted(
            with_room(live(old(capabilities)@, now), HTML_CAPABILITY_LIMIT as nat),
            GrantModel {
                secret: secret@,
                expires_at: until(now, HTML_CAPABILITY_SECONDS),
                scope: Some(GrantScope { post_id, position: file_position }),
            },
        ),
{
    capabilities.grant(
        secret,
        Some(GrantScope { post_id, position: file_position }),
        now,
        HTML_CAPABILITY_SECONDS,
        HTML_CAPABILITY_LIMIT,
    );
    text::joined3("/cap/", secret, support_path_prefix(post_id, file_position).as_str())
}

/// Whether a capability was handed out as it should be with this secret.
pub open spec fn capability_opened(
    before: Seq<GrantModel>,
    after: Seq<GrantModel>,
    prefix: Seq<char>,
    secret: Seq<char>,
    scope: GrantScope,
    now: u64,
) -> bool {
    &&& crate::hex::is_lower_hex_text(secret, 64)
    &&& prefix == "/cap/"@ + secret + support_prefix(scope.post_id, scope.position)
    &&& after == granted(
        with_room(live(before, now), HTML_CAPABILITY_LIMIT as nat),
        GrantModel {
            secret,
            expires_at: until(now, HTML_CAPABILITY_SECONDS),
            scope: Some(scope),
        },
    )
}

/// Whether a capability was handed out as it should be with some secret.
pub open spec fn some_capability_opened(
    before: Seq<GrantModel>,
    after: Seq<GrantModel>,
    prefix: Seq<char>,
    scope: GrantScope,
    now: u64,
) -> bool {
    exists|secret: Seq<char>| #[trigger]
        capability_opened(before, after, prefix, secret, scope, now)
}

/// Hands out a capability with a random secret for the support files of one HTML file, and
/// returns the path under which it opens them.
pub fn create_html_capability(
    capabilities: &mut Grants,
    post_id: i64,
    file_position: u32,
    now: Option<u64>,
) -> (result: Result<String, ApiError>)
    ensures
        match result {
            Ok(prefix) => {
                &&& now is Some
                &&& some_capability_opened(
                    old(capabilities)@,
                    final(capabilities)@,
                    prefix@,
                    GrantScope { post_id, position: file_position },
                    now->0,
                )
            },
            Err(answer) => answer@ == error::internal_error() && final(capabilities)@ == old(capabilities)@,
        },
{
    let secret = match random::random_hex(32) {
        Ok(secret) => secret,
        Err(_) => {
            return Err(ApiError::internal());
        },
    };
    let time: u64 = match now {
        Some(time) => time,
        None => {
            return Err(ApiError::internal());
        },
    };
    let ghost before = capabilities@;
    let prefix = open_capability(capabilities, secret.as_str(), post_id, file_position, time);
    assert(capability_opened(
        before,
        capabilities@,
        prefix@,
        secret@,
        GrantScope { post_id, position: file_position },
        time,
    ));
    Ok(prefix)
}

/// The answer where a capability opens nothing.
pub fn capability_not_found() -> (answer: ApiError)
    ensures
        answer@ == error::plain(404, "artifact_not_found"@, "Artifact was not found"@),
{
    ApiError::multipart(404, "artifact_not_found", "Artifact was not found")
}

/// Whether a secret that is out opens the support files of the scope.
pub open spec fn opens(
    grants: Seq<GrantModel>,
    secret: Seq<char>,
    scope: GrantScope,
    now: u64,
) -> bool {
    match position(live(grants, now), secret, 0) {
        Some(i) => live(grants, now)[i].scope == Some(scope),
        None => false,
    }
}

/// Checks a capability against the file that is asked for, and renews it where it fits.
pub fn use_capability(
    capabilities: &mut Grants,
    secret: &str,
    post_id: i64,
    file_position: u32,
    now: u64,
) -> (result: Result<(), ApiError>)
    ensures
        ({
            let current = live(old(capabilities)@, now);
            let scope = Some(GrantScope { post_id, position: file_position });
            match position(current, secret@, 0) {
                Some(i) => if current[i].scope == scope {
                    result is Ok && final(capabilities)@ == current.update(
                        i,
                        GrantModel {
                            expires_at: until(now, HTML_CAPABILITY_SECONDS),
                            ..current[i]
                        },
                    )
                } else {
                    result is Err && final(capabilities)@ == current
                },
                None => result is Err && final(capabilities)@ == current,
            }
        }),
        result is Ok <==> opens(
            old(capabilities)@,
            secret@,
            GrantScope { post_id, position: file_position },
            now,
        ),
        result matches Err(answer) ==> answer@ == error::plain(
            404,
            "artifact_not_found"@,
            "Artifact was not found"@,
        ),
{
    let scope = GrantScope { post_id, position: file_position };
    if capabilities.renew(secret, scope, now, HTML_CAPABILITY_SECONDS) {
        Ok(())
    } else {
        Err(capability_not_found())
    }
}

/// Whether no secret is out twice.
pub open spec fn secrets_differ(grants: Seq<GrantModel>) -> bool {
    forall|i: int, j: int|
        0 <= i < j < grants.len() ==> (#[trigger] grants[i]).secret != (
        #[trigger] grants[j]).secret
}

proof fn lemma_live_members(grants: Seq<GrantModel>, now: u64)
    ensures
        forall|i: int|
            0 <= i < live(grants, now).len() ==> grants.contains(#[trigger] live(grants, now)[i]),
        forall|i: int|
            0 <= i < grants.len() && (#[trigger] grants[i]).expires_at > now ==> live(
                grants,
                now,
            ).contains(grants[i]),
        secrets_differ(grants) ==> secrets_differ(live(grants, now)),
    decreases grants.len(),
{
    if grants.len() > 0 {
        let before = grants.drop_last();
        let last = grants.last();
        lemma_live_members(before, now);
        assert forall|i: int| 0 <= i < live(grants, now).len() implies grants.contains(
            #[trigger] live(grants, now)[i],
        ) by {
            if i < live(before, now).len() {
                assert(live(grants, now)[i] == live(before, now)[i]);
                assert(before.contains(live(before, now)[i]));
                let k = choose|k: int| 0 <= k < before.len() && before[k] == live(before, now)[i];
                assert(grants[k] == before[k]);
            } else {
                assert(grants[grants.len() - 1] == last);
            }
        }
        assert forall|i: int|
            0 <= i < grants.len() && (#[trigger] grants[i]).expires_at > now implies live(
            grants,
            now,
        ).contains(grants[i]) by {
            if i < before.len() {
                assert(before[i] == grants[i]);
                assert(live(before, now).contains(before[i]));
                let k = choose|k: int|
                    0 <= k < live(before, now).len() && live(before, now)[k] == before[i];
                assert(live(grants, now)[k] == before[i]);
            } else {
                assert(live(grants, now).last() == last);
            }
        }
        if secrets_differ(grants) {
            assert(secrets_differ(before)) by {
                assert forall|i: int, j: int| 0 <= i < j < before.len() implies (
                #[trigger] before[i]).secret != (#[trigger] before[j]).secret by {
                    assert(before[i] == grants[i] && before[j] == grants[j]);
                }
            }
            assert forall|i: int, j: int| 0 <= i < j < live(grants, now).len() implies (
            #[trigger] live(grants, now)[i]).secret != (#[trigger] live(grants, now)[j]).secret by {
                assert(live(grants, now)[i] == live(before, now)[i]);
                if j < live(before, now).len() {
                    assert(live(grants, now)[j] == live(before, now)[j]);
                } else {
                    assert(before.contains(live(before, now)[i]));
                    let k = choose|k: int|
                        0 <= k < before.len() && before[k] == live(before, now)[i];
                    assert(grants[k].secret != grants[grants.len() - 1].secret);
                }
            }
        }
    }
}

proof fn lemma_position_first(grants: Seq<GrantModel>, k: int, i: int)
    requires
        secrets_differ(grants),
        0 <= i <= k < grants.len(),
    ensures
        position(grants, grants[k].secret, i) == Some(k),
    decreases grants.len() - i,
{
    if i < k {
        assert(grants[i].secret != grants[k].secret);
        lemma_position_first(grants, k, i + 1);
    }
}

proof fn lemma_position_none(grants: Seq<GrantModel>, secret: Seq<char>, i: int)
    requires
        position(grants, secret, i) is None,
        0 <= i <= grants.len(),
    ensures
        forall|k: int| i <= k < grants.len() ==> (#[trigger] grants[k]).secret != secret,
    decreases grants.len() - i,
{
    if i < grants.len() {
        lemma_position_none(grants, secret, i + 1);
    }
}

/// Handing out a secret keeps the secrets distinct, and so does every renewal and every return.
pub proof fn law_secrets_stay_distinct(
    grants: Seq<GrantModel>,
    grant: GrantModel,
    now: u64,
    limit: nat,
    i: int,
    expires_at: u64,
)
    requires
        secrets_differ(grants),
    ensures
        secrets_differ(Seq::<GrantModel>::empty()),
        secrets_differ(live(grants, now)),
        secrets_differ(granted(with_room(live(grants, now), limit), grant)),
        0 <= i < live(grants, now).len() ==> secrets_differ(
            live(grants, now).update(i, GrantModel { expires_at, ..live(grants, now)[i] }),
        ),
        0 <= i < grants.len() ==> secrets_differ(grants.remove(i)),
{
    lemma_live_members(grants, now);
    lemma_roomy(grants, now, limit);
    let roomy = with_room(live(grants, now), limit);
    lemma_position(roomy, grant.secret, 0);
    match position(roomy, grant.secret, 0) {
        Some(k) => {
            assert(roomy[k].secret == grant.secret);
        },
        None => {
            lemma_position_none(roomy, grant.secret, 0);
        },
    }
}

proof fn lemma_roomy(grants: Seq<GrantModel>, now: u64, limit: nat)
    requires
        secrets_differ(grants),
    ensures
        secrets_differ(with_room(live(grants, now), limit)),
{
    lemma_live_members(grants, now);
    let current = live(grants, now);
    if current.len() > 0 {
        lemma_oldest(current);
    }
}

/// A secret that was handed out is found among the live ones exactly until its time comes.
proof fn lemma_granted_until(grants: Seq<GrantModel>, grant: GrantModel, later: u64)
    requires
        secrets_differ(grants),
    ensures
        ({
            let current = live(granted(grants, grant), later);
            match position(current, grant.secret, 0) {
                Some(k) => later < grant.expires_at && current[k] == grant,
                None => later >= grant.expires_at,
            }
        }),
{
    let after = granted(grants, grant);
    lemma_position(grants, grant.secret, 0);
    match position(grants, grant.secret, 0) {
        Some(k) => {
            assert(grants[k].secret == grant.secret);
        },
        None => {
            lemma_position_none(grants, grant.secret, 0);
        },
    }
    assert(secrets_differ(after));
    law_a_granted_secret_is_found(grants, grant);
    lemma_position(after, grant.secret, 0);
    lemma_live_members(after, later);
    let at = position(after, grant.secret, 0)->0;
    let current = live(after, later);
    lemma_position(current, grant.secret, 0);
    lemma_live_bounded(after, later);
    if grant.expires_at > later {
        assert(current.contains(after[at]));
        let k = choose|k: int| 0 <= k < current.len() && current[k] == after[at];
        lemma_position_first(current, k, 0);
    } else if position(current, grant.secret, 0) is Some {
        let k = position(current, grant.secret, 0)->0;
        assert(after.contains(current[k]));
        let m = choose|m: int| 0 <= m < after.len() && after[m] == current[k];
        assert(m == at) by {
            if m < at {
                assert(after[m].secret != after[at].secret);
            } else if at < m {
                assert(after[at].secret != after[m].secret);
            }
        }
    }
}

proof fn lemma_no_separator(s: Seq<char>, separator: char)
    requires
        forall|i: int| 0 <= i < s.len() ==> #[trigger] s[i] != separator,
    ensures
        text::split(s, separator) == seq![s],
    decreases s.len(),
{
    if s.len() == 0 {
        assert(s =~= Seq::empty());
    } else {
        lemma_no_separator(s.drop_last(), separator);
        let before = text::split(s.drop_last(), separator);
        assert(before.last() == s.drop_last());
        assert(s.drop_last().push(s.last()) =~= s);
        assert(text::split(s, separator) =~= seq![s]);
    }
}

/// The cookie that a log-in sets is read back from the header in which a browser returns it.
pub proof fn law_the_session_cookie_reads_back(header: Seq<u8>, secret: Seq<char>)
    requires
        crate::hex::is_lower_hex_text(secret, 64),
        is_header_text(header),
        header_chars(header) == "glim_session="@ + secret,
    ensures
        cookie_of(seq![header], "glim_session"@, 0) == Some(secret),
{
    reveal_strlit("glim_session=");
    reveal_strlit("glim_session");
    let whole = "glim_session="@ + secret;
    assert("glim_session="@ =~= "glim_session"@.push('='));
    assert forall|i: int| 0 <= i < whole.len() implies #[trigger] whole[i] != ';' by {
        if i >= 13 {
            assert(whole[i] == secret[i - 13]);
        }
    }
    lemma_no_separator(whole, ';');
    assert(whole.last() == secret[63]);
    assert(text::trimmed(whole) == whole);
    assert(whole.take(13) =~= "glim_session="@);
    assert(whole.skip(13) =~= secret);
    let parts = text::split(whole, ';');
    assert(parts[0] == whole);
    assert(cookie_in(parts[0], "glim_session"@) == Some(secret));
    assert(cookie_from(parts, "glim_session"@, 0) == Some(secret));
    assert(seq![header][0] == header);
}

/// A browser that returns the cookie of its log-in is known by it for twelve hours, and no
/// longer.
pub proof fn law_sessions_last_twelve_hours(
    before: Seq<GrantModel>,
    after: Seq<GrantModel>,
    cookie: Seq<char>,
    secret: Seq<char>,
    now: u64,
    secure: bool,
    headers: AccessHeaders,
    token: Seq<char>,
    later: u64,
)
    requires
        secrets_differ(before),
        session_opened(before, after, cookie, secret, now, secure),
        headers.authorization is None,
        headers.cookies@.len() == 1,
        is_header_text(headers.cookies@[0]@),
        header_chars(headers.cookies@[0]@) == "glim_session="@ + secret,
    ensures
        shown_by(headers, token, after, Some(later)) == (if later < until(
            now,
            BROWSER_SESSION_SECONDS,
        ) {
            Some(AuthenticatedBy::Cookie)
        } else {
            None
        }),
{
    let grant = GrantModel {
        secret,
        expires_at: until(now, BROWSER_SESSION_SECONDS),
        scope: None,
    };
    lemma_roomy(before, now, BROWSER_SESSION_LIMIT as nat);
    lemma_granted_until(
        with_room(live(before, now), BROWSER_SESSION_LIMIT as nat),
        grant,
        later,
    );
    let header = headers.cookies@[0]@;
    law_the_session_cookie_reads_back(header, secret);
    assert(values(headers.cookies@) =~= seq![header]);
}

/// A session that was closed is known no more.
pub proof fn law_closed_sessions_do_not_count(
    sessions: Seq<GrantModel>,
    secret: Seq<char>,
    i: int,
    later: u64,
)
    requires
        secrets_differ(sessions),
        position(sessions, secret, 0) == Some(i),
    ensures
        position(live(sessions.remove(i), later), secret, 0) is None,
{
    lemma_position(sessions, secret, 0);
    let left = sessions.remove(i);
    lemma_live_members(left, later);
    lemma_position(live(left, later), secret, 0);
    if position(live(left, later), secret, 0) is Some {
        let k = position(live(left, later), secret, 0)->0;
        assert(left.contains(live(left, later)[k]));
        let m = choose|m: int| 0 <= m < left.len() && left[m] == live(left, later)[k];
        if m < i {
            assert(sessions[m].secret != sessions[i].secret);
        } else {
            assert(left[m] == sessions[m + 1]);
            assert(sessions[i].secret != sessions[m + 1].secret);
        }
    }
}

/// A capability opens the support files of the one file that it was handed out for, and no
/// others, until its time comes.
pub proof fn law_capabilities_open_one_subtree(
    grants: Seq<GrantModel>,
    secret: Seq<char>,
    scope: GrantScope,
    now: u64,
    asked: GrantScope,
    later: u64,
)
    requires
        secrets_differ(grants),
    ensures
        ({
            let grant = GrantModel {
                secret,
                expires_at: until(now, HTML_CAPABILITY_SECONDS),
                scope: Some(scope),
            };
            let after = granted(
                with_room(live(grants, now), HTML_CAPABILITY_LIMIT as nat),
                grant,
            );
            opens(after, secret, asked, later) <==> asked == scope && later < until(
                now,
                HTML_CAPABILITY_SECONDS,
            )
        }),
{
    let grant = GrantModel {
        secret,
        expires_at: until(now, HTML_CAPABILITY_SECONDS),
        scope: Some(scope),
    };
    lemma_roomy(grants, now, HTML_CAPABILITY_LIMIT as nat);
    lemma_granted_until(
        with_room(live(grants, now), HTML_CAPABILITY_LIMIT as nat),
        grant,
        later,
    );
}

} // verus!

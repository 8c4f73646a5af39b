//! Sessions: their public identifiers, their activity, and the schema that holds them.
use vstd::prelude::*;
use crate::random;
use crate::random::Supply;
use crate::storage::error::StoreError;
use crate::text;

verus! {

/// The schema version that this library reads and writes.
pub const CURRENT_SCHEMA_VERSION: u32 = 5;

/// The number of characters of the first candidate for a public identifier.
pub const INITIAL_PUBLIC_ID_LENGTH: usize = 6;

/// The largest multiple of the alphabet's size that a byte can hold: bytes from here on would
/// make some characters likelier than others.
pub const PUBLIC_ID_ACCEPTANCE_BOUND: u8 = 232;

/// The Bitcoin Base58 alphabet.
pub const PUBLIC_ID_ALPHABET: &'static str =
    "123456789ABCDEFGHJKLMNPQRSTUVWXYZabcdefghijkmnopqrstuvwxyz";

/// Whether a character belongs to the Base58 alphabet: letters and digits without `0`, `O`, `I`
/// and `l`.
pub open spec fn is_base58(c: char) -> bool {
    text::is_ascii_alphanumeric(c) && c != '0' && c != 'O' && c != 'I' && c != 'l'
}

/// The character of the Base58 alphabet with the given number.
pub open spec fn base58_char(value: int) -> char {
    if value < 9 {
        (49 + value) as char
    } else if value < 17 {
        (56 + value) as char
    } else if value < 22 {
        (57 + value) as char
    } else if value < 33 {
        (58 + value) as char
    } else if value < 44 {
        (64 + value) as char
    } else {
        (65 + value) as char
    }
}

fn base58(value: u8) -> (c: char)
    requires
        value < 58,
    ensures
        c == base58_char(value as int),
        is_base58(c),
{
    if value < 9 {
        (49 + value) as char
    } else if value < 17 {
        (56 + value) as char
    } else if value < 22 {
        (57 + value) as char
    } else if value < 33 {
        (58 + value) as char
    } else if value < 44 {
        (64 + value) as char
    } else {
        (65 + value) as char
    }
}

/// The formula for the alphabet's characters lists exactly the alphabet, in its order.
pub proof fn law_base58_alphabet(value: int)
    requires
        0 <= value < 58,
    ensures
        PUBLIC_ID_ALPHABET@.len() == 58,
        PUBLIC_ID_ALPHABET@[value] == base58_char(value),
{
    reveal_strlit("123456789ABCDEFGHJKLMNPQRSTUVWXYZabcdefghijkmnopqrstuvwxyz");
}

/// The characters that random bytes stand for: bytes at or over the bound are passed over.
pub open spec fn public_id_chars(bytes: Seq<u8>) -> Seq<char>
    decreases bytes.len(),
{
    if bytes.len() == 0 {
        Seq::empty()
    } else {
        let before = public_id_chars(bytes.drop_last());
        if bytes.last() < PUBLIC_ID_ACCEPTANCE_BOUND {
            before.push(base58_char(bytes.last() as int % 58))
        } else {
            before
        }
    }
}

/// Whether the text is a public identifier of some length.
pub open spec fn is_public_id(s: Seq<char>) -> bool {
    forall|i: int| 0 <= i < s.len() ==> is_base58(#[trigger] s[i])
}

/// Every character of the alphabet stands for the same number of random bytes, four, and no two
/// characters are the same: none is likelier than another.
pub proof fn law_characters_are_equally_likely(value: int, other: int, byte: u8)
    requires
        0 <= value < 58,
        0 <= other < 58,
    ensures
        byte < PUBLIC_ID_ACCEPTANCE_BOUND && byte as int % 58 == value <==> byte == value || byte
            == value + 58 || byte == value + 116 || byte == value + 174,
        base58_char(value) == base58_char(other) ==> value == other,
{
}

pub(crate) proof fn lemma_chars_make_an_id(bytes: Seq<u8>)
    ensures
        is_public_id(public_id_chars(bytes)),
    decreases bytes.len(),
{
    if bytes.len() > 0 {
        lemma_chars_make_an_id(bytes.drop_last());
    }
}

/// Appends to a public identifier the characters that the random bytes stand for.
pub fn extend_public_id(public_id: &mut String, bytes: &[u8])
    ensures
        final(public_id)@ == old(public_id)@ + public_id_chars(bytes@),
        public_id_chars(bytes@).len() <= bytes@.len(),
        is_public_id(public_id_chars(bytes@)),
{
    let ghost start = public_id@;
    let mut i: usize = 0;
    while i < bytes.len()
        invariant
            i <= bytes.len(),
            public_id@ == start + public_id_chars(bytes@.take(i as int)),
            public_id_chars(bytes@.take(i as int)).len() <= i,
            is_public_id(public_id_chars(bytes@.take(i as int))),
        decreases bytes.len() - i,
    {
        assert(bytes@.take(i + 1).drop_last() =~= bytes@.take(i as int));
        let byte = bytes[i];
        if byte < PUBLIC_ID_ACCEPTANCE_BOUND {
            let c = base58(byte % 58);
            let ghost before = public_id_chars(bytes@.take(i as int));
            public_id.push(c);
            assert(public_id@ =~= start + before.push(c));
        }
        i += 1;
    }
    assert(bytes@.take(bytes@.len() as int) =~= bytes@);
}

proof fn lemma_joined_ids(one: Seq<char>, other: Seq<char>)
    requires
        is_public_id(one),
        is_public_id(other),
    ensures
        is_public_id(one + other),
{
    assert forall|i: int| 0 <= i < (one + other).len() implies is_base58(
        #[trigger] (one + other)[i],
    ) by {
        if i < one.len() {
            assert((one + other)[i] == one[i]);
        } else {
            assert((one + other)[i] == other[i - one.len()]);
        }
    }
}

/// The model of an identifier in the making: how long it is to be, and its characters so far.
pub struct DraftModel {
    pub length: nat,
    pub chars: Seq<char>,
}

/// The draft before anything was drawn.
pub open spec fn blank_draft(length: nat) -> DraftModel {
    DraftModel { length, chars: Seq::empty() }
}

/// How many characters are missing.
pub open spec fn missing(draft: DraftModel) -> int {
    draft.length - draft.chars.len()
}

/// The draft with the characters that the bytes stand for.
pub open spec fn extended(draft: DraftModel, bytes: Seq<u8>) -> DraftModel {
    DraftModel { chars: draft.chars + public_id_chars(bytes), ..draft }
}

/// Whether `after` is the draft with the characters of as many bytes as characters were missing.
pub open spec fn drew(before: DraftModel, bytes: Seq<u8>, after: DraftModel) -> bool {
    bytes.len() == missing(before) && after == extended(before, bytes)
}

/// Whether `after` is the draft after some draw.
pub open spec fn drew_some(before: DraftModel, after: DraftModel) -> bool {
    exists|bytes: Seq<u8>| #[trigger] drew(before, bytes, after)
}

/// A public identifier in the making. Bytes are drawn for the characters that are still missing,
/// as often as it takes: there is no number of draws after which it is certain to be complete.
#[derive(Debug)]
pub struct PublicIdDraft {
    length: usize,
    held: usize,
    chars: String,
}

impl View for PublicIdDraft {
    type V = DraftModel;

    closed spec fn view(&self) -> DraftModel {
        DraftModel { length: self.length as nat, chars: self.chars@ }
    }
}

impl PublicIdDraft {
    #[verifier::type_invariant]
    spec fn fits(self) -> bool {
        self.held == self.chars@.len() && self.held <= self.length && is_public_id(self.chars@)
    }

    /// An identifier of the given length, of which no character is there yet.
    pub fn start(length: usize) -> (draft: Self)
        ensures
            draft@ == blank_draft(length as nat),
    {
        let chars = String::new();
        assert(chars@ =~= Seq::<char>::empty());
        PublicIdDraft { length, held: 0, chars }
    }

    /// How many characters are missing, and so how many bytes are to be drawn.
    pub fn wanted(&self) -> (count: usize)
        ensures
            count == missing(self@),
    {
        proof {
            use_type_invariant(self);
        }
        self.length - self.held
    }

    /// The draft with the characters that the bytes stand for.
    pub fn take(self, bytes: &[u8]) -> (next: Self)
        requires
            bytes@.len() <= missing(self@),
        ensures
            next@ == extended(self@, bytes@),
    {
        proof {
            use_type_invariant(&self);
        }
        let PublicIdDraft { length, held: _, mut chars } = self;
        let ghost before = chars@;
        extend_public_id(&mut chars, bytes);
        proof {
            lemma_joined_ids(before, public_id_chars(bytes@));
        }
        let held: usize = text::chars_of(chars.as_str()).len();
        PublicIdDraft { length, held, chars }
    }

    /// Draws once from the operating system: as many random bytes as characters are missing. Where
    /// it gives none the draft is lost.
    pub fn draw(self) -> (result: Result<Self, StoreError>)
        ensures
            match result {
                Ok(next) => drew_some(self@, next@),
                Err(error) => missing(self@) > 0 && error is Random,
            },
    {
        match random::system_bytes(self.wanted()) {
            Ok(bytes) => {
                let ghost before = self@;
                let next = self.take(&bytes);
                assert(drew(before, bytes@, next@));
                Ok(next)
            },
            Err(cause) => Err(StoreError::Random(cause)),
        }
    }

    /// The characters so far: the identifier, once none is missing.
    pub fn into_text(self) -> (chars: String)
        ensures
            chars@ == self@.chars,
            is_public_id(chars@),
    {
        proof {
            use_type_invariant(&self);
        }
        self.chars
    }
}

/// What comes of drawing from a supply until an identifier is complete or the supply fails: the
/// draft, how many bytes were wanted, request by request, and what is left of the supply.
pub struct Drawing {
    pub draft: DraftModel,
    pub requests: Seq<usize>,
    pub left: Seq<u8>,
}

/// What comes of drawing from the bytes: each request is for as many bytes as characters are
/// missing, and where fewer are left it fails.
pub open spec fn drawing(draft: DraftModel, bytes: Seq<u8>) -> Drawing
    decreases bytes.len(),
{
    let want = missing(draft);
    if want <= 0 {
        Drawing { draft, requests: Seq::empty(), left: bytes }
    } else if want > bytes.len() {
        Drawing { draft, requests: seq![want as usize], left: bytes }
    } else {
        let more = drawing(extended(draft, bytes.take(want)), bytes.skip(want));
        Drawing { requests: seq![want as usize] + more.requests, ..more }
    }
}

/// A public identifier of the given length from the bytes that `source` gives, which is asked
/// again for as many as characters are still missing.
pub fn generate_public_id_with_fill(length: usize, source: &mut Supply) -> (result: Result<
    String,
    StoreError,
>)
    ensures
        ({
            let drawn = drawing(blank_draft(length as nat), old(source).left());
            &&& final(source).left() == drawn.left
            &&& final(source).wanted() == old(source).wanted() + drawn.requests
            &&& match result {
                Ok(public_id) => {
                    &&& missing(drawn.draft) == 0
                    &&& public_id@ == drawn.draft.chars
                    &&& public_id@.len() == length
                    &&& is_public_id(public_id@)
                },
                Err(error) => {
                    &&& missing(drawn.draft) > 0
                    &&& error matches StoreError::Random(cause)
                    &&& cause@ == old(source).message()
                },
            }
        }),
{
    let mut draft = PublicIdDraft::start(length);
    let ghost all = drawing(draft@, source.left());
    let ghost mut asked: Seq<usize> = Seq::empty();
    let ghost before = source.wanted();
    proof {
        assert(before + asked =~= before);
        assert(asked + all.requests =~= all.requests);
    }
    while draft.wanted() > 0
        invariant
            draft@.length == length,
            all == drawing(blank_draft(length as nat), old(source).left()),
            before == old(source).wanted(),
            source.message() == old(source).message(),
            source.wanted() == before + asked,
            ({
                let more = drawing(draft@, source.left());
                &&& more.draft == all.draft
                &&& more.left == all.left
                &&& asked + more.requests == all.requests
            }),
        decreases source.left().len(),
    {
        let count: usize = draft.wanted();
        let ghost left = source.left();
        let ghost now = draft@;
        let filled = source.next_bytes(count);
        proof {
            let more = drawing(now, left);
            assert(before + asked.push(count) =~= (before + asked).push(count));
            if filled is Ok {
                let rest = drawing(extended(now, left.take(count as int)), left.skip(count as int));
                assert(asked.push(count) + rest.requests =~= asked + (seq![count] + rest.requests));
            } else {
                assert(more.requests == seq![count]);
                assert(asked.push(count) =~= asked + more.requests);
            }
            asked = asked.push(count);
        }
        match filled {
            Ok(bytes) => {
                draft = draft.take(&bytes);
            },
            Err(cause) => {
                return Err(StoreError::Random(cause));
            },
        }
    }
    proof {
        assert(asked + Seq::<usize>::empty() =~= asked);
    }
    Ok(draft.into_text())
}

/// A session as the store knows it.
#[derive(Debug, PartialEq, Eq)]
pub struct SessionRecord {
    pub id: i64,
    pub public_id: String,
    pub project_id: i64,
}

/// The search for a free public identifier: the length of the next candidate.
pub struct CandidateSearch {
    pub length: usize,
}

/// What came of offering a candidate.
pub enum CandidateOutcome {
    /// The candidate was free and is now the session's.
    Accepted(SessionRecord),
    /// The candidate was taken; the search goes on.
    Collided,
}

impl CandidateSearch {
    /// The search starts at six characters.
    pub fn start() -> (search: Self)
        ensures
            search.length == INITIAL_PUBLIC_ID_LENGTH,
    {
        CandidateSearch { length: INITIAL_PUBLIC_ID_LENGTH }
    }

    /// What follows from offering `candidate` to the database, which inserted `inserted` rows:
    /// one row makes it the session's identifier, and anything else makes the next candidate one
    /// character longer, until no longer one can be asked for.
    pub fn offered(
        &mut self,
        candidate: String,
        inserted: usize,
        session_id: i64,
        project_id: i64,
    ) -> (result: Result<CandidateOutcome, StoreError>)
        ensures
            match result {
                Ok(CandidateOutcome::Accepted(session)) => {
                    &&& inserted == 1
                    &&& session == (SessionRecord {
                        id: session_id,
                        public_id: candidate,
                        project_id,
                    })
                    &&& *final(self) == *old(self)
                },
                Ok(CandidateOutcome::Collided) => inserted != 1 && final(self).length == old(self).length + 1,
                Err(error) => inserted != 1 && old(self).length == usize::MAX && error
                    == StoreError::PublicIdExhausted && *final(self) == *old(self),
            },
    {
        if inserted == 1 {
            return Ok(
                CandidateOutcome::Accepted(
                    SessionRecord { id: session_id, public_id: candidate, project_id },
                ),
            );
        }
        match self.length.checked_add(1) {
            Some(length) => {
                self.length = length;
                Ok(CandidateOutcome::Collided)
            },
            None => Err(StoreError::PublicIdExhausted),
        }
    }
}

/// What came of recording activity.
#[derive(Debug, Clone, Copy, PartialEq, Eq, Structural)]
pub struct ActivityReport {
    pub updated: bool,
    pub last_activity_at: i64,
}

/// The activity of a session after something occurred in it: the later of the two times. A
/// session that is not there has none.
pub fn record_activity(public_id: &str, previous: Option<i64>, occurred_at: i64) -> (result: Result<
    ActivityReport,
    StoreError,
>)
    ensures
        match result {
            Ok(report) => {
                &&& previous matches Some(before)
                &&& report.last_activity_at == (if occurred_at > before {
                    occurred_at
                } else {
                    before
                })
                &&& report.updated == (occurred_at > before)
            },
            Err(error) => previous is None && (error matches StoreError::SessionNotFound {
                public_id: missing,
            } && missing@ == public_id@),
        },
{
    match previous {
        None => Err(StoreError::SessionNotFound { public_id: text::copy_of(public_id) }),
        Some(before) => {
            if occurred_at > before {
                Ok(ActivityReport { updated: true, last_activity_at: occurred_at })
            } else {
                Ok(ActivityReport { updated: false, last_activity_at: before })
            }
        },
    }
}

/// The time of the latest activity after a run of events.
pub open spec fn latest_activity(start: i64, events: Seq<i64>) -> i64
    decreases events.len(),
{
    if events.len() == 0 {
        start
    } else {
        let before = latest_activity(start, events.drop_last());
        if events.last() > before {
            events.last()
        } else {
            before
        }
    }
}

/// Recorded activity never goes back, is at least each event's time, and is the start or one of
/// the events.
pub proof fn law_activity_is_monotone(start: i64, events: Seq<i64>)
    ensures
        latest_activity(start, events) >= start,
        forall|i: int| 0 <= i < events.len() ==> latest_activity(start, events) >= #[trigger] events[i],
        latest_activity(start, events) == start || events.contains(latest_activity(start, events)),
    decreases events.len(),
{
    if events.len() > 0 {
        let earlier = events.drop_last();
        law_activity_is_monotone(start, earlier);
        assert forall|i: int| 0 <= i < events.len() implies latest_activity(start, events)
            >= #[trigger] events[i] by {
            if i < earlier.len() {
                assert(events[i] == earlier[i]);
            }
        }
        let now = latest_activity(start, events);
        if now != start {
            if now == events.last() {
                assert(events[events.len() - 1] == now);
            } else {
                let k = choose|k: int| 0 <= k < earlier.len() && earlier[k] == now;
                assert(events[k] == now);
            }
        }
    }
}

/// A step of the schema: the version it leads to, and its SQL.
#[derive(Debug, Clone, Copy)]
pub struct Migration {
    pub version: u32,
    pub sql: &'static str,
}

/// Whether the steps lead to versions one, two, three and so on.
pub open spec fn is_consecutive(migrations: Seq<Migration>) -> bool {
    forall|i: int| 0 <= i < migrations.len() ==> (#[trigger] migrations[i]).version == i + 1
}

/// The version at which the steps end.
pub open spec fn final_version(migrations: Seq<Migration>) -> u32 {
    if migrations.len() == 0 {
        0
    } else {
        migrations.last().version
    }
}

/// The first fault of a plan from its step `i` on, as the version expected and the one found.
pub open spec fn plan_fault_from(migrations: Seq<Migration>, current: u32, i: int) -> Option<
    (int, u32),
>
    decreases migrations.len() - i,
{
    if i < 0 || i >= migrations.len() {
        if final_version(migrations) != current {
            Some((current as int, final_version(migrations)))
        } else {
            None
        }
    } else if migrations[i].version != i + 1 {
        Some((i + 1, migrations[i].version))
    } else {
        plan_fault_from(migrations, current, i + 1)
    }
}

/// The first fault of a plan that should lead, one version at a time, from nothing to `current`.
pub open spec fn plan_fault(migrations: Seq<Migration>, current: u32) -> Option<(int, u32)> {
    plan_fault_from(migrations, current, 0)
}

/// Checks that the steps lead, one version at a time, from nothing to `current`.
pub fn validate_migration_plan_to(migrations: &[Migration], current: u32) -> (result: Result<
    (),
    StoreError,
>)
    requires
        migrations@.len() <= u32::MAX,
    ensures
        match result {
            Ok(_) => plan_fault(migrations@, current) is None,
            Err(error) => {
                &&& plan_fault(migrations@, current) matches Some((wanted, version))
                &&& error matches StoreError::InvalidMigrationPlan { expected, found }
                &&& expected == wanted
                &&& found == version
            },
        },
{
    let mut i: usize = 0;
    while i < migrations.len()
        invariant
            i <= migrations.len(),
            migrations@.len() <= u32::MAX,
            plan_fault(migrations@, current) == plan_fault_from(migrations@, current, i as int),
        decreases migrations.len() - i,
    {
        let expected: u32 = i as u32 + 1;
        if migrations[i].version != expected {
            return Err(
                StoreError::InvalidMigrationPlan { expected, found: migrations[i].version },
            );
        }
        i += 1;
    }
    let found: u32 = if migrations.len() == 0 {
        0
    } else {
        migrations[migrations.len() - 1].version
    };
    if found != current {
        return Err(StoreError::InvalidMigrationPlan { expected: current, found });
    }
    Ok(())
}

/// Checks that the steps lead, one version at a time, from nothing to the current schema.
pub fn validate_migration_plan(migrations: &[Migration]) -> (result: Result<(), StoreError>)
    requires
        migrations@.len() <= u32::MAX,
    ensures
        match result {
            Ok(_) => plan_fault(migrations@, CURRENT_SCHEMA_VERSION) is None,
            Err(error) => {
                &&& plan_fault(migrations@, CURRENT_SCHEMA_VERSION) matches Some((wanted, version))
                &&& error matches StoreError::InvalidMigrationPlan { expected, found }
                &&& expected == wanted
                &&& found == version
            },
        },
{
    validate_migration_plan_to(migrations, CURRENT_SCHEMA_VERSION)
}

proof fn lemma_plan_fault_from(migrations: Seq<Migration>, current: u32, i: int)
    requires
        0 <= i <= migrations.len(),
        is_consecutive(migrations.take(i)),
    ensures
        plan_fault_from(migrations, current, i) is None <==> (is_consecutive(migrations)
            && final_version(migrations) == current),
    decreases migrations.len() - i,
{
    if i == migrations.len() {
        assert(migrations.take(i) =~= migrations);
    } else if migrations[i].version == i + 1 {
        assert forall|j: int| 0 <= j < i + 1 implies (
        #[trigger] migrations.take(i + 1)[j]).version == j + 1 by {
            if j < i {
                assert(migrations.take(i + 1)[j] == migrations.take(i)[j]);
            }
        }
        lemma_plan_fault_from(migrations, current, i + 1);
    }
}

/// A plan is accepted exactly when its versions are one, two, three and so on up to the version
/// it should reach.
pub proof fn law_accepted_plans(migrations: Seq<Migration>, current: u32)
    ensures
        plan_fault(migrations, current) is None <==> (is_consecutive(migrations) && final_version(
            migrations,
        ) == current),
{
    lemma_plan_fault_from(migrations, current, 0);
}

/// The number of the first step that a store at version `from` needs: in a valid plan the steps
/// before it are exactly those it has.
pub fn first_pending(migrations: &[Migration], from: u32) -> (first: usize)
    requires
        is_consecutive(migrations@),
    ensures
        first <= migrations@.len(),
        forall|i: int| 0 <= i < migrations@.len() ==> ((#[trigger] migrations@[i]).version > from
            <==> i >= first),
{
    if (from as u64) < (migrations.len() as u64) {
        from as usize
    } else {
        migrations.len()
    }
}

/// Whether a store of this schema version can be opened.
pub fn check_schema_version(found: u32) -> (result: Result<(), StoreError>)
    ensures
        match result {
            Ok(_) => found <= CURRENT_SCHEMA_VERSION,
            Err(error) => found > CURRENT_SCHEMA_VERSION && error == (StoreError::SchemaTooNew {
                found,
                supported: CURRENT_SCHEMA_VERSION,
            }),
        },
{
    if found > CURRENT_SCHEMA_VERSION {
        Err(StoreError::SchemaTooNew { found, supported: CURRENT_SCHEMA_VERSION })
    } else {
        Ok(())
    }
}

/// The version of a store after it applied, in order, the given steps.
pub open spec fn version_after(from: u32, steps: Seq<Migration>) -> u32 {
    if steps.len() == 0 {
        from
    } else {
        steps.last().version
    }
}

/// A store that is not too new ends at the current version when it applies what a valid plan
/// holds from its first pending step on, and each step raises the version by one.
pub proof fn law_migrations_reach_current(migrations: Seq<Migration>, from: u32, first: int)
    requires
        is_consecutive(migrations),
        final_version(migrations) == CURRENT_SCHEMA_VERSION,
        from <= CURRENT_SCHEMA_VERSION,
        0 <= first <= migrations.len(),
        forall|i: int| 0 <= i < migrations.len() ==> ((#[trigger] migrations[i]).version > from
            <==> i >= first),
    ensures
        version_after(from, migrations.skip(first)) == CURRENT_SCHEMA_VERSION,
        forall|i: int|
            0 <= i < migrations.skip(first).len() ==> (
            #[trigger] migrations.skip(first)[i]).version == from + 1 + i,
{
    let n = migrations.len() as int;
    assert(migrations[n - 1].version == n);
    assert(first == from) by {
        if first < n {
            assert(migrations[first].version > from);
        }
        if first > 0 {
            assert(migrations[first - 1].version <= from);
        }
    }
}

/// The seconds of the Unix clock as the store's signed time, where they fit.
pub fn unix_seconds(seconds_since_epoch: Option<u64>) -> (result: Result<i64, StoreError>)
    ensures
        match result {
            Ok(seconds) => seconds_since_epoch == Some(seconds as u64) && seconds >= 0,
            Err(error) => {
                &&& seconds_since_epoch matches Some(seconds) ==> seconds > i64::MAX
                &&& error matches StoreError::Io(cause)
                &&& seconds_since_epoch is Some ==> cause@
                    == "system time exceeds signed Unix seconds"@
                &&& seconds_since_epoch is None ==> cause@
                    == "second time provided was later than self"@
            },
        },
{
    match seconds_since_epoch {
        Some(seconds) => {
            if seconds <= 0x7fff_ffff_ffff_ffff {
                Ok(seconds as i64)
            } else {
                Err(StoreError::Io(text::copy_of("system time exceeds signed Unix seconds")))
            }
        },
        None => Err(StoreError::Io(text::copy_of("second time provided was later than self"))),
    }
}

} // verus!

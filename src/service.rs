use vstd::prelude::*;
use crate::ident::{is_identifier, new_identifier};
use crate::models::{NewUrl, Url, DEFAULT_CREATOR};
use crate::table::{created, holds, is_older, target_of, MappingTable, StoreError};

verus! {

/// Candidates tried by one create before it gives up on collisions.
pub const MAX_ATTEMPTS: u32 = 5;

/// Seconds in a day.
pub const SECONDS_PER_DAY: i64 = 86_400;

/// Age, in seconds, past which the sweep removes a mapping (thirty days).
pub const RETENTION_SECS: i64 = 30 * SECONDS_PER_DAY;

/// Seconds between two sweeps.
pub const SWEEP_INTERVAL_SECS: u64 = 60;

/// Why a create failed.
#[derive(Debug, Clone, Copy, PartialEq, Eq, Structural)]
pub enum CreateErrorKind {
    /// The target URL was empty; nothing was written.
    Validation,
    /// Every candidate identifier collided with a live mapping.
    Exhausted,
    /// The store failed for another reason.
    Storage,
}

/// A failed create, with the message shown to the client.
pub struct CreateError {
    pub kind: CreateErrorKind,
    pub message: String,
}

/// Why a resolve or a sweep failed.
#[derive(Debug, Clone, Copy, PartialEq, Eq, Structural)]
pub enum FetchErrorKind {
    /// No live mapping has the identifier.
    NotFound,
    /// The store failed.
    Storage,
}

/// A failed resolve or sweep, with the message shown to the client or logged.
pub struct FetchError {
    pub kind: FetchErrorKind,
    pub message: String,
}

/// What a create does after a failed insert.
#[derive(Debug, Clone, Copy, PartialEq, Eq, Structural)]
pub enum Decision {
    /// Draw a fresh identifier and insert again.
    Retry,
    /// Stop and report the failure.
    Fail(CreateErrorKind),
}

/// The retry rule: a collision is retried while fewer than `MAX_ATTEMPTS`
/// inserts were made; any other failure ends the create.
pub open spec fn decision_for(attempt: u32, e: StoreError) -> Decision {
    match e {
        StoreError::DuplicateIdentifier => if attempt < MAX_ATTEMPTS {
            Decision::Retry
        } else {
            Decision::Fail(CreateErrorKind::Exhausted)
        },
        _ => Decision::Fail(CreateErrorKind::Storage),
    }
}

/// Some live mapping's identifier has the shape of a generated one, so a
/// fresh candidate may collide with it.
pub open spec fn shaped_id_taken(rows: Seq<Url>) -> bool {
    exists|i: int| 0 <= i < rows.len() && is_identifier(#[trigger] rows[i].short_url@)
}

/// The error reported for a create that failed with `kind`.
pub fn create_error(kind: CreateErrorKind) -> (e: CreateError)
    ensures
        e.kind == kind,
        e.message@ == (if kind == CreateErrorKind::Validation {
            "URL must not be empty"@
        } else {
            "Failed to create short url"@
        }),
{
    let message = match kind {
        CreateErrorKind::Validation => "URL must not be empty".to_owned(),
        _ => "Failed to create short url".to_owned(),
    };
    CreateError { kind, message }
}

/// The error reported for a failed resolve or sweep.
pub fn fetch_error(kind: FetchErrorKind, message: &str) -> (e: FetchError)
    ensures
        e.kind == kind,
        e.message@ == message@,
{
    FetchError { kind, message: message.to_owned() }
}

/// Accepts any non-empty target URL.
pub fn validate_target(url: &str) -> (r: Result<(), CreateError>)
    ensures
        r is Ok <==> url@.len() > 0,
        r matches Err(e) ==> e.kind == CreateErrorKind::Validation,
{
    if url.is_empty() {
        Err(create_error(CreateErrorKind::Validation))
    } else {
        Ok(())
    }
}

/// Decides, after insert number `attempt` (counting from one) failed with
/// `e`, whether to try a fresh identifier. Only collisions are retried, and
/// at most `MAX_ATTEMPTS` inserts are made in all.
pub fn after_failed_insert(attempt: u32, e: StoreError) -> (d: Decision)
    ensures
        d == decision_for(attempt, e),
{
    match e {
        StoreError::DuplicateIdentifier => if attempt < MAX_ATTEMPTS {
            Decision::Retry
        } else {
            Decision::Fail(CreateErrorKind::Exhausted)
        },
        _ => Decision::Fail(CreateErrorKind::Storage),
    }
}

/// Maps the store's answer to a lookup onto what the client is told.
pub fn resolve_outcome(r: Result<String, StoreError>) -> (o: Result<String, FetchError>)
    ensures
        match r {
            Ok(t) => o matches Ok(s) && s@ == t@,
            Err(StoreError::NotFound) => o matches Err(e) && e.kind == FetchErrorKind::NotFound,
            Err(_) => o matches Err(e) && e.kind == FetchErrorKind::Storage,
        },
        o matches Err(e) ==> e.message@ == "Failed to get url"@,
{
    match r {
        Ok(t) => Ok(t),
        Err(StoreError::NotFound) => Err(fetch_error(FetchErrorKind::NotFound, "Failed to get url")),
        Err(_) => Err(fetch_error(FetchErrorKind::Storage, "Failed to get url")),
    }
}

/// The sweep's cutoff: `now - margin`, or `None` where that leaves the
/// range of timestamps.
pub fn sweep_cutoff(now: i64, margin: i64) -> (r: Option<i64>)
    ensures
        r == (if i64::MIN <= now - margin <= i64::MAX {
            Some((now - margin) as i64)
        } else {
            None::<i64>
        }),
{
    now.checked_sub(margin)
}

/// Inserts `url` under the candidate identifier `short`, stamped with `now`,
/// and hands the identifier back.
pub fn append_to_db(db: &mut MappingTable, url: &str, short: String, now: i64) -> (r: Result<
    String,
    StoreError,
>)
    requires
        old(db).wf(),
    ensures
        final(db).wf(),
        r == Err::<String, StoreError>(StoreError::StorageFailure) <==> !old(db).has_room(),
        r == Err::<String, StoreError>(StoreError::DuplicateIdentifier) <==> old(db).has_room()
            && holds(old(db)@, short@),
        r is Ok <==> !holds(old(db)@, short@) && old(db).has_room(),
        r is Err ==> *final(db) == *old(db),
        r matches Ok(s) ==> {
            &&& s@ == short@
            &&& created(old(db)@, final(db)@, short@, url@)
            &&& final(db)@.last().created_by@ == DEFAULT_CREATOR@
            &&& final(db)@.last().created_at == Some(final(db).last_stamp())
            &&& final(db)@.last().id == old(db).next_key()
            &&& final(db).next_key() == old(db).next_key() + 1
            &&& final(db).last_stamp() == if now < old(db).last_stamp() {
                old(db).last_stamp()
            } else {
                now
            }
        },
{
    let outcome = db.insert(&NewUrl::new(url, short.as_str()), now);
    match outcome {
        Ok(()) => Ok(short),
        Err(e) => Err(e),
    }
}

/// Creates a mapping for `url` under a fresh random identifier, retrying on
/// collisions up to `MAX_ATTEMPTS` inserts.
pub fn create_url(db: &mut MappingTable, url: &str, now: i64) -> (r: Result<String, CreateError>)
    requires
        old(db).wf(),
    ensures
        final(db).wf(),
        r matches Err(e) ==> *final(db) == *old(db),
        r matches Err(e) ==> (e.kind == CreateErrorKind::Validation <==> url@.len() == 0),
        r matches Err(e) ==> (e.kind == CreateErrorKind::Storage <==> url@.len() > 0
            && !old(db).has_room()),
        url@.len() > 0 && old(db).has_room() ==> (r is Ok || (r matches Err(e)
            && e.kind == CreateErrorKind::Exhausted)),
        url@.len() > 0 && old(db).has_room() && !shaped_id_taken(old(db)@) ==> r is Ok,
        r matches Err(e) && e.kind == CreateErrorKind::Exhausted ==> shaped_id_taken(old(db)@),
        r is Ok ==> old(db).has_room(),
        r matches Ok(id) ==> {
            &&& url@.len() > 0
            &&& is_identifier(id@)
            &&& created(old(db)@, final(db)@, id@, url@)
            &&& final(db)@.last().created_by@ == DEFAULT_CREATOR@
            &&& final(db)@.last().created_at == Some(final(db).last_stamp())
            &&& final(db)@.last().id == old(db).next_key()
            &&& final(db).next_key() == old(db).next_key() + 1
            &&& final(db).last_stamp() == if now < old(db).last_stamp() {
                old(db).last_stamp()
            } else {
                now
            }
        },
{
    match validate_target(url) {
        Ok(()) => {},
        Err(e) => {
            return Err(e);
        },
    }
    let mut attempt: u32 = 1;
    loop
        invariant
            1 <= attempt <= MAX_ATTEMPTS,
            url@.len() > 0,
            db.wf(),
            *db == *old(db),
        decreases MAX_ATTEMPTS - attempt,
    {
        let short = new_identifier();
        match append_to_db(db, url, short, now) {
            Ok(id) => {
                return Ok(id);
            },
            Err(e) => match after_failed_insert(attempt, e) {
                Decision::Retry => {
                    attempt = attempt + 1;
                },
                Decision::Fail(kind) => {
                    return Err(create_error(kind));
                },
            },
        }
    }
}

/// The target URL stored under `short`.
pub fn get_url(db: &MappingTable, short: &String) -> (r: Result<String, FetchError>)
    requires
        db.wf(),
    ensures
        r is Ok <==> holds(db@, short@),
        r matches Ok(t) ==> target_of(db@, short@) == Some(t@),
        r matches Err(e) ==> e.kind == FetchErrorKind::NotFound && e.message@
            == "Failed to get url"@,
{
    match db.lookup(short) {
        Ok(u) => Ok(u.name),
        Err(e) => resolve_outcome(Err(e)),
    }
}

/// One sweep: deletes every mapping created more than `margin` seconds before
/// `now`, and returns how many went.
pub fn cleanup_old_links(db: &mut MappingTable, now: i64, margin: i64) -> (r: Result<
    usize,
    FetchError,
>)
    requires
        old(db).wf(),
    ensures
        final(db).wf(),
        r is Ok <==> i64::MIN <= now - margin <= i64::MAX,
        r matches Err(e) ==> e.kind == FetchErrorKind::Storage && *final(db) == *old(db)
            && e.message@ == "Failed to delete url"@,
        r matches Ok(count) ==> {
            let cutoff = (now - margin) as i64;
            &&& count <= old(db)@.len()
            &&& final(db)@ == old(db)@.subrange(count as int, old(db)@.len() as int)
            &&& forall|i: int| 0 <= i < count ==> is_older(#[trigger] old(db)@[i], cutoff)
            &&& forall|i: int|
                count <= i < old(db)@.len() ==> !is_older(#[trigger] old(db)@[i], cutoff)
            &&& final(db).last_stamp() == old(db).last_stamp()
            &&& final(db).has_room() == old(db).has_room()
        },
{
    match sweep_cutoff(now, margin) {
        Some(cutoff) => Ok(db.delete_older_than(cutoff)),
        None => Err(fetch_error(FetchErrorKind::Storage, "Failed to delete url")),
    }
}

} // verus!

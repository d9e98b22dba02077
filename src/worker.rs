//! The thumbnail worker's decisions: where a claimed row's artifact goes,
//! and how the codec's outcome closes the row. The loop that claims, runs
//! the codec and sleeps when idle is driven by the application.

use crate::catalog::Catalog;
use crate::catalog::CatalogError;
use crate::catalog::Status;
use crate::catalog::replaced;
use crate::codec::CodecError;
use vstd::prelude::*;

verus! {

/// Closes the claimed row `id` from the codec's `outcome`: `Ready` with the
/// artifact at `location` on success, `Failed` with the error's non-empty
/// description otherwise. The catalog refuses an unknown id or a row that is
/// not `Generating` exactly as `mark_ready` and `mark_failed` do.
pub fn complete_job(
    catalog: &mut Catalog,
    id: usize,
    location: String,
    outcome: &Result<(), CodecError>,
    now: u64,
) -> (r: Result<(), CatalogError>)
    requires
        old(catalog).wf(),
    ensures
        final(catalog).wf(),
        (id >= old(catalog)@.len()) <==> r == Err::<(), CatalogError>(CatalogError::NotFound),
        (id < old(catalog)@.len() && old(catalog)@[id as int].status != Status::Generating)
            <==> r == Err::<(), CatalogError>(CatalogError::NotGenerating),
        r is Err ==> final(catalog)@ == old(catalog)@,
        r is Ok ==> {
            let row = final(catalog)@[id as int];
            &&& replaced(old(catalog)@, final(catalog)@, id as int, row)
            &&& match outcome {
                Ok(_) => {
                    &&& row.moved_from(old(catalog)@[id as int], Status::Ready, now)
                    &&& row.thumbnail_location == Some(location)
                },
                Err(e) => {
                    &&& row.moved_from(old(catalog)@[id as int], Status::Failed, now)
                    &&& row.last_error is Some
                    &&& row.last_error->0@ == e.text()
                    &&& row.last_error->0@.len() > 0
                },
            }
        },
{
    match outcome {
        Ok(_) => catalog.mark_ready(id, location, now),
        Err(e) => catalog.mark_failed(id, e.describe(), now),
    }
}

/// The first pause, in milliseconds, after a claim finds nothing pending.
pub const FIRST_IDLE_DELAY_MS: u64 = 50;

/// The longest pause between two claims while idle.
pub const MAX_IDLE_DELAY_MS: u64 = 2000;

/// The pause after one more idle claim: the previous pause doubled, capped
/// at `MAX_IDLE_DELAY_MS`, and never below `FIRST_IDLE_DELAY_MS`.
pub fn next_idle_delay(previous_ms: u64) -> (r: u64)
    ensures
        r == vstd::math::min(
            MAX_IDLE_DELAY_MS as int,
            vstd::math::max(FIRST_IDLE_DELAY_MS as int, 2 * previous_ms),
        ),
{
    if previous_ms >= MAX_IDLE_DELAY_MS / 2 {
        MAX_IDLE_DELAY_MS
    } else if previous_ms < FIRST_IDLE_DELAY_MS / 2 {
        FIRST_IDLE_DELAY_MS
    } else {
        2 * previous_ms
    }
}

} // verus!

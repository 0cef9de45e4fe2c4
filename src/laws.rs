use vstd::prelude::*;

use crate::error::CounterError;
use crate::program::{after, increment_result, initialize_result, Increment, Initialize};
use crate::record::CounterView;

verus! {

/// The records after `n` increments requested with `ctx`, one after another.
pub open spec fn increment_times(
    records: Map<Seq<u8>, CounterView>,
    ctx: Increment,
    n: nat,
) -> Map<Seq<u8>, CounterView>
    decreases n,
{
    if n == 0 {
        records
    } else {
        let before = increment_times(records, ctx, (n - 1) as nat);
        after(before, ctx.counter@, increment_result(before, ctx))
    }
}

/// Creating a counter at a fresh address, signed by a payer who can cover
/// the rent, succeeds; reading the address afterwards gives a record owned by
/// the payer and holding `start`.
pub proof fn lemma_initialize_then_read(
    records: Map<Seq<u8>, CounterView>,
    ctx: Initialize,
    start: u64,
)
    requires
        !records.contains_key(ctx.counter@),
        ctx.authority.is_signer,
        ctx.authority.lamports >= ctx.rent,
    ensures
        initialize_result(records, ctx, start) is Ok,
        after(records, ctx.counter@, initialize_result(records, ctx, start)).contains_key(
            ctx.counter@,
        ),
        after(records, ctx.counter@, initialize_result(records, ctx, start))[ctx.counter@]
            == (CounterView { authority: ctx.authority.key@, count: start }),
{
}

/// Creating a counter where a record already exists fails with
/// `AllocationConflict` and leaves every record as it was.
pub proof fn lemma_initialize_conflict(
    records: Map<Seq<u8>, CounterView>,
    ctx: Initialize,
    start: u64,
)
    requires
        records.contains_key(ctx.counter@),
    ensures
        initialize_result(records, ctx, start) == Err::<CounterView, CounterError>(
            CounterError::AllocationConflict,
        ),
        after(records, ctx.counter@, initialize_result(records, ctx, start)) == records,
{
}

/// Incrementing `n` times on behalf of the stored authority never changes the
/// authority, and adds exactly `n` to the count wherever the sum fits in a
/// `u64`.
pub proof fn lemma_increment_n_times(records: Map<Seq<u8>, CounterView>, ctx: Increment, n: nat)
    requires
        records.contains_key(ctx.counter@),
        records[ctx.counter@].authority == ctx.authority.key@,
        ctx.authority.is_signer,
    ensures
        increment_times(records, ctx, n).contains_key(ctx.counter@),
        increment_times(records, ctx, n)[ctx.counter@].authority
            == records[ctx.counter@].authority,
        records[ctx.counter@].count + n <= u64::MAX ==> increment_times(records, ctx, n)[ctx.counter@].count
            == records[ctx.counter@].count + n,
    decreases n,
{
    if n > 0 {
        lemma_increment_n_times(records, ctx, (n - 1) as nat);
    }
}

/// Incrementing on behalf of anyone but the stored authority fails with
/// `AuthorityMismatch` and leaves every record as it was.
pub proof fn lemma_increment_wrong_authority(records: Map<Seq<u8>, CounterView>, ctx: Increment)
    requires
        records.contains_key(ctx.counter@),
        records[ctx.counter@].authority != ctx.authority.key@,
    ensures
        increment_result(records, ctx) == Err::<CounterView, CounterError>(
            CounterError::AuthorityMismatch,
        ),
        after(records, ctx.counter@, increment_result(records, ctx)) == records,
{
}

/// Incrementing where no record exists fails with `RecordNotFound` and
/// leaves every record as it was.
pub proof fn lemma_increment_missing(records: Map<Seq<u8>, CounterView>, ctx: Increment)
    requires
        !records.contains_key(ctx.counter@),
    ensures
        increment_result(records, ctx) == Err::<CounterView, CounterError>(
            CounterError::RecordNotFound,
        ),
        after(records, ctx.counter@, increment_result(records, ctx)) == records,
{
}

} // verus!

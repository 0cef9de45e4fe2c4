use vstd::prelude::*;

use crate::error::CounterError;
use crate::identity::Identity;
use crate::record::{Counter, CounterView};
use crate::store::RecordStore;

verus! {

/// A principal taking part in a request: its identity, whether it produced a
/// valid authorization proof for the request, and the balance it can pay
/// from.
#[derive(Debug, Clone, Copy, PartialEq, Eq)]
pub struct Signer {
    pub key: Identity,
    pub is_signer: bool,
    pub lamports: u64,
}

/// The request that creates a counter.
#[derive(Debug, Clone, Copy, PartialEq, Eq)]
pub struct Initialize {
    /// The address of the new record.
    pub counter: Identity,
    /// The payer, and the future authority of the record.
    pub authority: Signer,
    /// What allocating `COUNTER_SPACE` bytes costs the payer.
    pub rent: u64,
}

/// The request that advances a counter.
#[derive(Debug, Clone, Copy, PartialEq, Eq)]
pub struct Increment {
    /// The address of the record.
    pub counter: Identity,
    /// The caller, who must be the record's authority.
    pub authority: Signer,
}

/// A transition's result, as mathematical values.
pub open spec fn result_view(r: Result<Counter, CounterError>) -> Result<CounterView, CounterError> {
    match r {
        Ok(c) => Ok(c@),
        Err(e) => Err(e),
    }
}

/// The records after a transition at `address` that came out as `r`: the new
/// state is written on success, nothing changes on failure.
pub open spec fn after(
    records: Map<Seq<u8>, CounterView>,
    address: Seq<u8>,
    r: Result<CounterView, CounterError>,
) -> Map<Seq<u8>, CounterView> {
    match r {
        Ok(v) => records.insert(address, v),
        Err(_) => records,
    }
}

/// What creating a counter with `ctx` and `start` gives over `records`.
pub open spec fn initialize_result(
    records: Map<Seq<u8>, CounterView>,
    ctx: Initialize,
    start: u64,
) -> Result<CounterView, CounterError> {
    if records.contains_key(ctx.counter@) {
        Err(CounterError::AllocationConflict)
    } else if !ctx.authority.is_signer {
        Err(CounterError::UnauthorizedSigner)
    } else if ctx.authority.lamports < ctx.rent {
        Err(CounterError::InsufficientFunds)
    } else {
        Ok(CounterView { authority: ctx.authority.key@, count: start })
    }
}

/// What advancing the counter with `ctx` gives over `records`.
pub open spec fn increment_result(records: Map<Seq<u8>, CounterView>, ctx: Increment) -> Result<
    CounterView,
    CounterError,
> {
    if !records.contains_key(ctx.counter@) {
        Err(CounterError::RecordNotFound)
    } else if records[ctx.counter@].authority != ctx.authority.key@ {
        Err(CounterError::AuthorityMismatch)
    } else if !ctx.authority.is_signer {
        Err(CounterError::UnauthorizedSigner)
    } else if records[ctx.counter@].count == u64::MAX {
        Err(CounterError::CounterOverflow)
    } else {
        Ok(
            CounterView {
                authority: records[ctx.counter@].authority,
                count: (records[ctx.counter@].count + 1) as u64,
            },
        )
    }
}

/// Creates the counter at `ctx.counter`, owned by `ctx.authority`, starting
/// at `start`. The payer is charged `ctx.rent` on success only.
pub fn initialize(store: &mut RecordStore, ctx: &mut Initialize, start: u64) -> (r: Result<
    Counter,
    CounterError,
>)
    requires
        old(store).wf(),
    ensures
        final(store).wf(),
        result_view(r) == initialize_result(old(store)@, *old(ctx), start),
        final(store)@ == after(old(store)@, old(ctx).counter@, result_view(r)),
        final(ctx).counter == old(ctx).counter,
        final(ctx).rent == old(ctx).rent,
        final(ctx).authority.key == old(ctx).authority.key,
        final(ctx).authority.is_signer == old(ctx).authority.is_signer,
        final(ctx).authority.lamports == (if r is Ok {
            old(ctx).authority.lamports - old(ctx).rent
        } else {
            old(ctx).authority.lamports as int
        }),
{
    if store.contains(&ctx.counter) {
        return Err(CounterError::AllocationConflict);
    }
    if !ctx.authority.is_signer {
        return Err(CounterError::UnauthorizedSigner);
    }
    if ctx.authority.lamports < ctx.rent {
        return Err(CounterError::InsufficientFunds);
    }
    ctx.authority.lamports = ctx.authority.lamports - ctx.rent;
    let counter = Counter { authority: ctx.authority.key, count: start };
    store.write(&ctx.counter, &counter);
    Ok(counter)
}

/// Adds one to the counter at `ctx.counter`, on behalf of its authority.
pub fn increment(store: &mut RecordStore, ctx: &Increment) -> (r: Result<Counter, CounterError>)
    requires
        old(store).wf(),
    ensures
        final(store).wf(),
        result_view(r) == increment_result(old(store)@, *ctx),
        final(store)@ == after(old(store)@, ctx.counter@, result_view(r)),
{
    let current = match store.load(&ctx.counter) {
        Some(c) => c,
        None => {
            return Err(CounterError::RecordNotFound);
        },
    };
    if !current.authority.same_as(&ctx.authority.key) {
        return Err(CounterError::AuthorityMismatch);
    }
    if !ctx.authority.is_signer {
        return Err(CounterError::UnauthorizedSigner);
    }
    if current.count == u64::MAX {
        return Err(CounterError::CounterOverflow);
    }
    let counter = Counter { authority: current.authority, count: current.count + 1 };
    store.write(&ctx.counter, &counter);
    Ok(counter)
}

} // verus!

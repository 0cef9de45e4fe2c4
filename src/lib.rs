//! A persistent counter owned by one principal: a fixed-layout record, a
//! store of records keyed by address, and the two authority-gated
//! transitions that create and advance a counter.

mod error;
mod identity;
mod laws;
mod program;
mod record;
mod store;

pub use error::CounterError;
pub use identity::{Identity, IDENTITY_LEN};
pub use laws::{
    increment_times, lemma_increment_missing, lemma_increment_n_times,
    lemma_increment_wrong_authority, lemma_initialize_conflict, lemma_initialize_then_read,
};
pub use program::{
    after, increment, increment_result, initialize, initialize_result, result_view, Increment,
    Initialize, Signer,
};
pub use record::{
    byte_of, counter_bytes, counter_tag, decode_counter, le_bytes, le_value, lemma_decode_encode,
    lemma_encode_decode, Counter, CounterView, COUNTER_SPACE, COUNT_OFFSET, TAG_LEN,
};
pub use store::RecordStore;

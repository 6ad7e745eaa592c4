//! A fixed-capacity, single-writer / multi-reader (SPMC) ring buffer built on
//! a sequential-lock protocol: the writer never blocks, and readers detect and
//! recover from being overrun instead of slowing the writer down.
//!
//! A [`RingBuffer`] holds a fixed number of slots (256), each carrying one
//! 8-byte message together with the generation at which it was last written.
//! Exactly one [`WriteGuard`] may be outstanding at a time; it appends
//! messages, unconditionally overwriting the oldest slot once the buffer has
//! wrapped. Any number of [`SharedReader`] cursors may poll the buffer: each
//! pop either claims the next unseen message, reports that nothing new has
//! been published, or — when the writer has lapped the cursor — resynchronizes
//! to the oldest generation the buffer still holds, silently dropping what was
//! overwritten.

mod stamp;
mod ring;
mod message;

pub use message::Message;
pub use message::range;
pub use message::range_spec;

pub use ring::RingBuffer;
pub use ring::WriteGuard;
pub use ring::SharedReader;
pub use stamp::CAPACITY;
pub use stamp::latest_stamp;
pub use stamp::lemma_stamp_bounds;
pub use stamp::lemma_stamp_names_slot;
pub use stamp::lemma_stamp_at_least;
pub use stamp::lemma_delivery_in_order;
pub use stamp::lemma_overrun_freshness;
pub use stamp::lemma_independent_broadcast;
pub use stamp::lemma_claims_exclusive;

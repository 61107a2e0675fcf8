//! Planning and initialisation logic for aligned, optionally page-touched,
//! optionally page-locked growable buffers.
//!
//! The library computes, and proves correct, everything about such a buffer
//! that can be stated over plain values: the byte layout of an allocation
//! (element count, coerced capacity, byte sizes, alignment), the element
//! indices that sparse page-touching must write, the effect of touching or
//! filling on a buffer's contents, and the byte length that page-locking must
//! pin. The raw allocation itself is unsafe code and lives with the caller.

mod fill;
mod plan;
mod touch;

pub use fill::fill_all;

pub use touch::apply_touch;
pub use touch::is_touch_sequence;
pub use touch::lemma_page_offsets_touched;
pub use touch::num_touches;
pub use touch::touch_applied;
pub use touch::touch_index;
pub use touch::touch_indices;
pub use touch::touch_pages;

pub use plan::AllocLayout;
pub use plan::AllocPlan;
pub use plan::effective_capacity;
pub use plan::effective_capacity_spec;
pub use plan::layout_matches;
pub use plan::page_aligned_plan;
pub use plan::pin_length;
pub use plan::plan_aligned;
pub use plan::plan_matches;

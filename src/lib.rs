//! A single-queue packet reflector: the sizing and carving of its page-aligned
//! buffer pool, an index-based slot arena with ownership tracking, the burst
//! forwarding step with its drop accounting, and the ordered port bring-up.

pub mod layout;
pub mod pool;
pub mod forward;
pub mod setup;

//! Monotonic time, deadline alarms and a bounded wake registry for a
//! heap-free cooperative runtime.
pub mod duration;
pub mod clock;
pub mod chronos;
pub mod alarm;

//! Alarm multiplexing over the system timer: a microsecond delay and a
//! deadline service for a cooperative scheduler.
pub mod clock;
pub mod cycle_delay;
pub mod delay;
pub mod embassy;
pub mod systimer;

//! Dwell-time tracking for a six-faced object: classify raw accelerometer
//! samples into the face the object rests on, track how long each face stays
//! current, and persist completed dwell intervals as text records through a
//! bounded append/read log store guarded by transaction-granular bus
//! arbitration.

pub mod arbiter;
pub mod log_store;
pub mod orientation;
pub mod record;
pub mod session;

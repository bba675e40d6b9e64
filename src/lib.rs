//! Train-departure lookup behind an authenticated gateway: repair and compare the
//! upstream's timestamps, select the leg a caller should see, and decide the
//! gateway's replies.
pub mod gateway;
pub mod timestamp;
pub mod trips;

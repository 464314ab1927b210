//! Storage of recorded audio clips and selection of the audio output device
//! for a jam-session desktop application.
//!
//! Both are written as decisions over plain values: a save is a state
//! machine ([`persistence::SaveJob`]) that asks its host for one file
//! operation at a time, and the device state ([`devices::DeviceSession`])
//! takes the host's listings and switch confirmations as arguments. The host
//! performs the I/O.

pub mod devices;
pub mod error;
pub mod file_name;
pub mod persistence;

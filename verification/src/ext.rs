//! Declarations of outside types that the library carries through.
use vstd::prelude::*;

verus! {

/// The error type of `std::io`.
#[verifier::external_type_specification]
#[verifier::external_body]
pub struct ExIoError(std::io::Error);

/// The error type of `std::fmt`.
#[verifier::external_type_specification]
#[verifier::external_body]
pub struct ExFmtError(std::fmt::Error);

/// A point in time of the system clock.
#[verifier::external_type_specification]
#[verifier::external_body]
pub struct ExSystemTime(std::time::SystemTime);

/// The sending half of an unbounded channel of `std::sync::mpsc`.
#[verifier::external_type_specification]
#[verifier::external_body]
#[verifier::reject_recursive_types(T)]
pub struct ExMpscSender<T>(std::sync::mpsc::Sender<T>);

/// The sending half of a bounded channel of `std::sync::mpsc`.
#[verifier::external_type_specification]
#[verifier::external_body]
#[verifier::reject_recursive_types(T)]
pub struct ExMpscSyncSender<T>(std::sync::mpsc::SyncSender<T>);

/// The receiving half of a channel of `std::sync::mpsc`.
#[verifier::external_type_specification]
#[verifier::external_body]
#[verifier::reject_recursive_types(T)]
pub struct ExMpscReceiver<T>(std::sync::mpsc::Receiver<T>);

} // verus!

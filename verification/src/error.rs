//! The ways in which building a generator or asking it for an identifier
//! can fail.

use vstd::prelude::*;

verus! {

/// Why a generator could not be built, or could not give an identifier.
#[derive(Debug)]
pub enum Error {
    /// The configured start time, in nanoseconds since the Unix epoch, lies
    /// after the time of the build.
    StartTimeAheadOfCurrentTime(i64),
    /// The machine number could not be had: its source failed, or none was
    /// given. The text says which.
    MachineIdFailed(String),
    /// The data-center number could not be had: its source failed, or none
    /// was given. The text says which.
    DataCenterIdFailed(String),
    /// The machine number does not fit its field: the number, and the
    /// highest that fits.
    MachineIdOutOfRange(u16, u16),
    /// The data-center number does not fit its field: the number, and the
    /// highest that fits.
    DataCenterIdOutOfRange(u16, u16),
    /// The check on the machine number turned it down.
    CheckMachineIdFailed,
    /// The check on the data-center number turned it down.
    CheckDataCenterIdFailed,
    /// The elapsed time no longer fits the time field.
    OverTimeLimit,
    /// No interface of the machine carries a private address.
    NoPrivateIPv4,
    /// The lock round a shared generator is poisoned.
    MutexPoisoned,
    /// The four widths (time, sequence, data center, machine) do not add up
    /// to 63.
    InvalidBitLength(u8, u8, u8, u8),
}

/// An error as plain values: the texts as sequences of characters.
pub enum ErrorView {
    StartTimeAheadOfCurrentTime(i64),
    MachineIdFailed(Seq<char>),
    DataCenterIdFailed(Seq<char>),
    MachineIdOutOfRange(u16, u16),
    DataCenterIdOutOfRange(u16, u16),
    CheckMachineIdFailed,
    CheckDataCenterIdFailed,
    OverTimeLimit,
    NoPrivateIPv4,
    MutexPoisoned,
    InvalidBitLength(u8, u8, u8, u8),
}

impl View for Error {
    type V = ErrorView;

    open spec fn view(&self) -> ErrorView {
        match *self {
            Error::StartTimeAheadOfCurrentTime(nanos) => ErrorView::StartTimeAheadOfCurrentTime(
                nanos,
            ),
            Error::MachineIdFailed(text) => ErrorView::MachineIdFailed(text@),
            Error::DataCenterIdFailed(text) => ErrorView::DataCenterIdFailed(text@),
            Error::MachineIdOutOfRange(id, max) => ErrorView::MachineIdOutOfRange(id, max),
            Error::DataCenterIdOutOfRange(id, max) => ErrorView::DataCenterIdOutOfRange(id, max),
            Error::CheckMachineIdFailed => ErrorView::CheckMachineIdFailed,
            Error::CheckDataCenterIdFailed => ErrorView::CheckDataCenterIdFailed,
            Error::OverTimeLimit => ErrorView::OverTimeLimit,
            Error::NoPrivateIPv4 => ErrorView::NoPrivateIPv4,
            Error::MutexPoisoned => ErrorView::MutexPoisoned,
            Error::InvalidBitLength(time, sequence, data_center_id, machine_id) => {
                ErrorView::InvalidBitLength(time, sequence, data_center_id, machine_id)
            },
        }
    }
}

/// A result with its error as plain values.
pub open spec fn plain<T>(result: Result<T, Error>) -> Result<T, ErrorView> {
    match result {
        Ok(value) => Ok(value),
        Err(error) => Err(error@),
    }
}

} // verus!

//! The counter's frequency as the kernel reports it, where it does.

use vstd::prelude::*;
use crate::number::NumberError;
use crate::number::number_of;
use crate::number::parse_decimal;
use crate::text::chars_of;
use crate::text::trim_bounds;
use crate::text::trimmed;

verus! {

/// Why the kernel's report of the frequency is not available.
#[derive(Debug, PartialEq, Eq)]
pub enum TscReadError {
    /// The report could not be read; carries the system's error code, if any.
    FailedToRead(Option<i32>),
    /// The report was read but is no number; carries the reason and the text.
    FailedToParse(NumberError, String),
}

/// Interprets the kernel's report of the counter's frequency in kHz: one
/// decimal number, with white space around it ignored. `report` is the text
/// that was read, or the error code with which reading it failed.
pub fn try_read_tsc_freq_khz(report: Result<&str, Option<i32>>) -> (r: Result<u64, TscReadError>)
    ensures
        match report {
            Err(code) => r == Err::<u64, TscReadError>(TscReadError::FailedToRead(code)),
            Ok(text) => match number_of(trimmed(text@), u64::MAX as nat) {
                Ok(khz) => r is Ok && r->Ok_0 == khz,
                Err(why) => {
                    &&& r is Err
                    &&& r->Err_0 is FailedToParse
                    &&& r->Err_0->FailedToParse_0 == why
                    &&& r->Err_0->FailedToParse_1@ == text@
                },
            },
        },
{
    match report {
        Err(code) => Err(TscReadError::FailedToRead(code)),
        Ok(text) => {
            let chars = chars_of(text);
            let (from, to) = trim_bounds(&chars);
            match parse_decimal(&chars, from, to, u64::MAX) {
                Ok(khz) => Ok(khz),
                Err(why) => Err(TscReadError::FailedToParse(why, text.to_owned())),
            }
        },
    }
}

/// The rate in cycles per second that a frequency in kHz stands for.
pub fn frequency_from_khz(khz: u64) -> (cycles_per_second: u64)
    requires
        khz * 1000 <= u64::MAX,
    ensures
        cycles_per_second == khz * 1000,
{
    khz * 1000
}

} // verus!

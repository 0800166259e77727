//! The configuration that a user interface writes and the engine reads.

use vstd::prelude::*;
use vstd::string::StringSliceAdditionalSpecFns;
use crate::decimal::{decimal_usize, parse_decimal};
use crate::sample::Sample;
use crate::trigger::{Trigger, TriggerMode};

verus! {

/// The window length that the engine starts with.
pub const INITIAL_BUFFER_SIZE: usize = 1000;

/// The hold time that the trigger starts with: ten milliseconds.
pub const INITIAL_HOLD_TIME: u128 = 10_000_000;

/// The nanoseconds in a microsecond. Hold times are typed in microseconds.
pub const NANOS_PER_MICRO: u128 = 1000;

/// The window length after its text field was edited to `text`, given as the
/// bytes of its UTF-8 encoding. An empty field means a window of one sample;
/// a field that holds a decimal number means that number; any other text
/// leaves the length as it was.
pub open spec fn buffer_size_from_text(previous: usize, text: Seq<u8>) -> usize {
    if text.len() == 0 {
        1
    } else {
        match decimal_usize(text) {
            Some(len) => len,
            None => previous,
        }
    }
}

/// The hold time after its text field was edited to `text`, given as the
/// bytes of its UTF-8 encoding. A field that holds a decimal number means
/// that many microseconds; any other text leaves the hold time as it was.
pub open spec fn hold_time_from_text(previous: u128, text: Seq<u8>) -> u128 {
    match decimal_usize(text) {
        Some(micros) => (micros * NANOS_PER_MICRO) as u128,
        None => previous,
    }
}

/// The trigger and the window length, as one value, so that the engine can
/// take a copy of both at once.
#[derive(Clone, Copy, Debug, PartialEq, Eq, Structural)]
pub struct OsciConfig {
    /// The trigger that the engine tests each step of the signal against.
    pub trigger: Trigger,
    /// The number of samples in the sliding window.
    pub buffer_size: usize,
}

impl OsciConfig {
    /// The configuration at start: a rising edge through zero, ten
    /// milliseconds of hold time, a window of a thousand samples.
    pub open spec fn spec_initial() -> OsciConfig {
        OsciConfig {
            trigger: Trigger {
                trigger_mode: TriggerMode::RisingEdge,
                trigger_level: Sample::spec_zero(),
                hold_time: INITIAL_HOLD_TIME,
            },
            buffer_size: INITIAL_BUFFER_SIZE,
        }
    }

    /// The configuration at start: a rising edge through zero, ten
    /// milliseconds of hold time, a window of a thousand samples.
    #[verifier::when_used_as_spec(spec_initial)]
    pub fn initial() -> (config: OsciConfig)
        ensures
            config == OsciConfig::spec_initial(),
    {
        OsciConfig {
            trigger: Trigger {
                trigger_mode: TriggerMode::RisingEdge,
                trigger_level: Sample::zero(),
                hold_time: INITIAL_HOLD_TIME,
            },
            buffer_size: INITIAL_BUFFER_SIZE,
        }
    }

    /// Takes the text of the window-length field. Text that is no number is
    /// passed over: the length stays what it was.
    pub fn set_buffer_size_text(&mut self, text: &str)
        ensures
            final(self).buffer_size == buffer_size_from_text(
                old(self).buffer_size,
                text.spec_bytes(),
            ),
            final(self).trigger == old(self).trigger,
    {
        if text.as_bytes().len() == 0 {
            self.buffer_size = 1;
        } else {
            match parse_decimal(text) {
                Some(len) => {
                    self.buffer_size = len;
                },
                None => {},
            }
        }
    }

    /// Takes the text of the hold-time field, a number of microseconds. Text
    /// that is no number is passed over: the hold time stays what it was.
    pub fn set_hold_time_text(&mut self, text: &str)
        ensures
            final(self).trigger.hold_time == hold_time_from_text(
                old(self).trigger.hold_time,
                text.spec_bytes(),
            ),
            final(self).trigger.trigger_mode == old(self).trigger.trigger_mode,
            final(self).trigger.trigger_level == old(self).trigger.trigger_level,
            final(self).buffer_size == old(self).buffer_size,
    {
        match parse_decimal(text) {
            Some(micros) => {
                self.trigger.hold_time = (micros as u128) * NANOS_PER_MICRO;
            },
            None => {},
        }
    }

    /// The hold time in whole microseconds, as the hold-time field shows it.
    pub fn hold_time_micros(&self) -> (micros: u128)
        ensures
            micros == self.trigger.hold_time / NANOS_PER_MICRO,
    {
        self.trigger.hold_time / NANOS_PER_MICRO
    }
}

} // verus!

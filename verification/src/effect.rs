//! The shape of a light pulse for each kind of timeline event.
//!
//! The pulse knows nothing of any playback provider or lighting backend: it
//! maps an event to a brightness, a hue offset from the base hue and a
//! transition time.

use crate::time::{Duration, NANOS_PER_MILLI};
use crate::track::{TimelineEvent, TimelineEventKind};
use vstd::prelude::*;

verus! {

/// The integer part of a rendered pulse.
#[derive(Clone, Copy, Debug, PartialEq, Eq, Structural)]
pub struct PulseShape {
    /// Brightness in thousandths, at most 1000.
    pub brightness_milli: u16,
    /// Degrees added to the effect's base hue before wrapping at 360.
    pub hue_offset_degrees: u16,
    /// How long the light takes to reach the new state.
    pub transition: Duration,
}

/// The transition of a pulse on an event of `kind`, in milliseconds: short
/// on downbeats, longer on beats, longest on section starts.
pub open spec fn pulse_transition_millis(kind: TimelineEventKind) -> u64 {
    match kind {
        TimelineEventKind::Downbeat => 45,
        TimelineEventKind::Beat => 80,
        TimelineEventKind::Section => 180,
    }
}

/// The hue offset of a pulse on an event of `kind`, in degrees.
pub open spec fn pulse_hue_offset(kind: TimelineEventKind) -> u16 {
    match kind {
        TimelineEventKind::Downbeat => 0,
        TimelineEventKind::Beat => 32,
        TimelineEventKind::Section => 180,
    }
}

/// The pulse for `event`: brightness from its strength (capped at full),
/// hue offset and transition from its kind.
pub open spec fn pulse_of(event: TimelineEvent) -> PulseShape {
    PulseShape {
        brightness_milli: if event.strength_milli <= 1000 {
            event.strength_milli
        } else {
            1000
        },
        hue_offset_degrees: pulse_hue_offset(event.kind),
        transition: Duration::span_of_millis(pulse_transition_millis(event.kind)),
    }
}

/// The pulse for `event`: brightness from its strength (capped at full),
/// hue offset and transition from its kind.
pub fn pulse_shape(event: &TimelineEvent) -> (p: PulseShape)
    ensures
        p == pulse_of(*event),
        p.brightness_milli == if event.strength_milli <= 1000 {
            event.strength_milli
        } else {
            1000
        },
        p.hue_offset_degrees == pulse_hue_offset(event.kind),
        p.transition@ == pulse_transition_millis(event.kind) * NANOS_PER_MILLI,
{
    let brightness_milli = if event.strength_milli <= 1000 {
        event.strength_milli
    } else {
        1000
    };
    let (hue_offset_degrees, millis): (u16, u64) = match event.kind {
        TimelineEventKind::Downbeat => (0, 45),
        TimelineEventKind::Beat => (32, 80),
        TimelineEventKind::Section => (180, 180),
    };
    PulseShape { brightness_milli, hue_offset_degrees, transition: Duration::from_millis(millis) }
}

} // verus!

use vstd::prelude::*;

verus! {

/// Highest pitch of the note scale.
pub const NOTE_MAX: u8 = 127;

/// Pitch of the lowest C that the keyboard helpers name.
pub const C0_NOTE: u8 = 12;

/// Semitones in an octave.
pub const OCTAVE_SEMITONES: u8 = 12;

/// An equal-tempered pitch identifier on the 0..=127 semitone scale.
#[derive(Copy, Clone, Debug, PartialEq, Eq, Structural)]
pub struct MidiNote {
    pub note: u8,
}

/// The note `n` semitones above `note`, held at the top of the scale.
pub open spec fn raised(note: int, n: int) -> int {
    if note + n > NOTE_MAX {
        NOTE_MAX as int
    } else {
        note + n
    }
}

/// The note `n` semitones below `note`, held at zero.
pub open spec fn lowered(note: int, n: int) -> int {
    if note >= n {
        note - n
    } else {
        0
    }
}

impl MidiNote {
    pub fn new(note: u8) -> (r: Self)
        ensures
            r.note == note,
    {
        Self { note }
    }

    /// Frequency in millihertz under the standard tuning (A4 at 440 Hz).
    pub fn frequency(&self) -> (r: u64)
        ensures
            r as int == crate::tuner::note_frequency(0, self.note as int),
    {
        let tuner = crate::tuner::Tuner::default();
        tuner.frequency_of(*self)
    }

    pub fn offset_up(&self, n: u8) -> (r: Self)
        ensures
            r.note as int == raised(self.note as int, n as int),
    {
        let note: u8 = self.note.saturating_add(n);
        let note: u8 = if note > NOTE_MAX {
            NOTE_MAX
        } else {
            note
        };
        Self { note }
    }

    pub fn offset_down(&self, n: u8) -> (r: Self)
        ensures
            r.note as int == lowered(self.note as int, n as int),
    {
        let note: u8 = self.note.saturating_sub(n);
        Self { note }
    }

    pub fn octave_up(&self, n: u8) -> (r: Self)
        ensures
            r.note as int == raised(self.note as int, OCTAVE_SEMITONES * n),
    {
        let semitones: u8 = if n > 21 {
            u8::MAX
        } else {
            OCTAVE_SEMITONES * n
        };
        self.offset_up(semitones)
    }

    pub fn octave_down(&self, n: u8) -> (r: Self)
        ensures
            r.note as int == lowered(self.note as int, OCTAVE_SEMITONES * n),
    {
        let semitones: u8 = if n > 21 {
            u8::MAX
        } else {
            OCTAVE_SEMITONES * n
        };
        self.offset_down(semitones)
    }

    pub fn c0() -> (r: Self)
        ensures
            r.note == C0_NOTE,
    {
        Self { note: C0_NOTE }
    }

    /// The C of the given octave, held at the top of the scale.
    pub fn c(octave: u8) -> (r: Self)
        ensures
            r.note as int == raised(C0_NOTE as int, OCTAVE_SEMITONES * octave),
    {
        Self::c0().octave_up(octave)
    }
}

} // verus!

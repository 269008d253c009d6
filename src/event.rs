use crate::midi::MidiNote;
use crate::wavetable::WavetableKind;
use vstd::prelude::*;

verus! {

#[derive(Copy, Clone, Debug, PartialEq, Eq, Structural)]
pub enum EventKind {
    NoteOn,
    NoteOff,
}

/// A key going down or up.
#[derive(Copy, Clone, Debug, PartialEq, Eq, Structural)]
pub struct Event {
    pub note: MidiNote,
    pub kind: EventKind,
}

/// A control message for the voice. Gains and levels are in units of
/// `1 / GAIN_ONE` and `1 / LEVEL_ONE`, durations in milliseconds.
#[derive(Copy, Clone, Debug, PartialEq, Eq, Structural)]
pub enum ControlMessage {
    NoteOn(MidiNote),
    NoteOff(MidiNote),
    TuneOctaveUp,
    TuneOctaveDown,
    SelectOscillator(WavetableKind),
    SetMasterGain(u64),
    SetAttackMs(u16),
    SetDecayMs(u16),
    SetSustain(u64),
    SetReleaseMs(u16),
}

impl Event {
    pub fn new(note: MidiNote, kind: EventKind) -> (r: Self)
        ensures
            r.note == note,
            r.kind == kind,
    {
        Self { note, kind }
    }

    pub fn note_on(note: MidiNote) -> (r: Self)
        ensures
            r.note == note,
            r.kind == EventKind::NoteOn,
    {
        let kind = EventKind::NoteOn;
        Self { note, kind }
    }

    pub fn note_off(note: MidiNote) -> (r: Self)
        ensures
            r.note == note,
            r.kind == EventKind::NoteOff,
    {
        let kind = EventKind::NoteOff;
        Self { note, kind }
    }

    /// The control message that carries this key event to the voice.
    pub fn message(&self) -> (r: ControlMessage)
        ensures
            r == (match self.kind {
                EventKind::NoteOn => ControlMessage::NoteOn(self.note),
                EventKind::NoteOff => ControlMessage::NoteOff(self.note),
            }),
    {
        match self.kind {
            EventKind::NoteOn => ControlMessage::NoteOn(self.note),
            EventKind::NoteOff => ControlMessage::NoteOff(self.note),
        }
    }
}

} // verus!

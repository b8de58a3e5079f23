//! Decoding of one MIDI byte sequence into the event that the router acts on.
//!
//! The bytes are decoded by the `wmidi` crate. Of what it returns, only the
//! note messages matter here: every other message it accepts is `Other`, and
//! every byte sequence it rejects is malformed.

use vstd::prelude::*;
use wmidi::MidiMessage;

verus! {

/// A decoded MIDI message, as far as the router tells messages apart.
#[derive(Clone, Copy, Debug, PartialEq, Eq, Structural)]
pub enum MidiEvent {
    /// A key of the controller went down.
    NoteOn(u8),
    /// A key of the controller went up.
    NoteOff(u8),
    /// Any other well-formed message: control change, pitch bend, clock, ...
    Other,
}

/// The bytes start with a status byte: a first byte of 128 or more.
pub open spec fn has_status(bytes: Seq<u8>) -> bool {
    bytes.len() > 0 && bytes[0] >= 0x80
}

/// The first byte is the status byte of a note-off (`0x80..=0x8F`) or of a
/// note-on (`0x90..=0x9F`) message. The low four bits are the channel.
pub open spec fn has_note_status(bytes: Seq<u8>) -> bool {
    bytes.len() > 0 && 0x80 <= bytes[0] < 0xA0
}

/// A note status byte followed by a note number and a velocity, each below
/// 128. Bytes after the third are not looked at.
pub open spec fn is_note_message(bytes: Seq<u8>) -> bool {
    has_note_status(bytes) && bytes.len() >= 3 && bytes[1] < 0x80 && bytes[2] < 0x80
}

/// Whether `wmidi::MidiMessage::try_from` accepts `bytes`, that is, returns
/// `Ok`.
pub uninterp spec fn wmidi_accepts(bytes: Seq<u8>) -> bool;

/// The event that a byte sequence decodes to, given whether the decoder
/// accepts it; `None` where the bytes are malformed.
///
/// Bytes without a status byte in front are malformed. With a note status
/// byte, anything but a note message is malformed; a note message is a
/// note-off where its status byte says so, and also where a note-on carries
/// velocity 0. With any other status byte the decoder decides.
pub open spec fn event_of(bytes: Seq<u8>, accepted: bool) -> Option<MidiEvent> {
    if !has_status(bytes) {
        None
    } else if has_note_status(bytes) {
        if !is_note_message(bytes) {
            None
        } else if bytes[0] >= 0x90 && bytes[2] > 0 {
            Some(MidiEvent::NoteOn(bytes[1]))
        } else {
            Some(MidiEvent::NoteOff(bytes[1]))
        }
    } else if accepted {
        Some(MidiEvent::Other)
    } else {
        None
    }
}

/// The event that a byte sequence decodes to; `None` where it is malformed.
pub open spec fn decoding(bytes: Seq<u8>) -> Option<MidiEvent> {
    event_of(bytes, wmidi_accepts(bytes))
}

/// Decodes one MIDI message with `wmidi::MidiMessage::try_from`.
///
/// Trusted, and not proved here: that the decoder rejects bytes that do not
/// start with a status byte; that with a status byte of `0x80..=0x9F` it
/// returns a note-on or note-off exactly as [`event_of`] says, with the
/// second byte as the note, and rejects the rest; that with any other status
/// byte it returns no note message; and that it does not panic. Which byte
/// sequences with another status byte it accepts is left to
/// [`wmidi_accepts`].
#[verifier::external_body]
pub(crate) fn decode(bytes: &[u8]) -> (event: Option<MidiEvent>)
    ensures
        event == event_of(bytes@, wmidi_accepts(bytes@)),
{
    match MidiMessage::try_from(bytes) {
        Ok(MidiMessage::NoteOn(_, note, _)) => Some(MidiEvent::NoteOn(u8::from(note))),
        Ok(MidiMessage::NoteOff(_, note, _)) => Some(MidiEvent::NoteOff(u8::from(note))),
        Ok(_) => Some(MidiEvent::Other),
        Err(_) => None,
    }
}

/// A decoded note is a note number: it is at most 127.
pub proof fn law_decoded_notes_are_in_range(bytes: Seq<u8>)
    ensures
        match decoding(bytes) {
            Some(MidiEvent::NoteOn(note)) => note <= 127,
            Some(MidiEvent::NoteOff(note)) => note <= 127,
            _ => true,
        },
{
}

} // verus!

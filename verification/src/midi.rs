//! MIDI channel voice messages: how a note-on or note-off message is packed into bytes.

use vstd::prelude::*;

verus! {

/// The highest channel number that the low four bits of a status byte can hold.
pub const CHANNEL_MAX: u8 = 0b00001111;

/// Status of a note-off message on channel 0.
pub const NOTE_OFF: u8 = 0b10000000;

/// Status of a note-on message on channel 0.
pub const NOTE_ON: u8 = 0b10010000;

/// The channel of a message that names none.
pub const DEFAULT_CHANNEL: u8 = 1;

/// Why a message could not be built.
#[derive(Clone, Copy, Debug, PartialEq, Eq, Structural)]
pub enum MidiError {
    /// The channel is above `CHANNEL_MAX`.
    InvalidChannel,
}

/// An event of a track, with the time since the event before it.
pub struct MTrkEvent {
    pub delta_time: usize,
    pub event: Event,
}

/// What happens at a point of a track.
pub enum Event {
    /// A channel message.
    MidiEvent(MidiMessage),
}

/// A channel voice message: a status byte and two data bytes.
pub struct MidiMessage {
    pub status: u8,
    data_byte: (u8, u8),
}

/// The channel that a message goes to: the one named, or `DEFAULT_CHANNEL`.
pub open spec fn channel_of(channel: Option<u8>) -> u8 {
    match channel {
        Some(named) => named,
        None => DEFAULT_CHANNEL,
    }
}

/// The status byte of a message of kind `kind` on `channel`: the kind in the high four bits,
/// the channel in the low four.
pub open spec fn status_of(kind: u8, channel: u8) -> u8 {
    kind | channel
}

impl MidiMessage {
    /// The status byte, as the field `status` holds it.
    pub closed spec fn spec_status(&self) -> u8 {
        self.status
    }

    /// The status byte: the kind of the message and its channel.
    #[verifier::when_used_as_spec(spec_status)]
    pub fn status(&self) -> (status: u8)
        ensures
            status == self.status(),
    {
        self.status
    }

    /// The two data bytes that follow the status byte, as the field `data_byte` holds them.
    pub closed spec fn spec_data(&self) -> (u8, u8) {
        self.data_byte
    }

    /// The two data bytes that follow the status byte: the note number, then the velocity.
    #[verifier::when_used_as_spec(spec_data)]
    pub fn data(&self) -> (data: (u8, u8))
        ensures
            data == self.data(),
    {
        self.data_byte
    }

    /// The message of kind `kind` for a note on a channel: an error if the channel is above
    /// `CHANNEL_MAX`.
    pub open spec fn voiced(
        kind: u8,
        note_number: u8,
        velocity: u8,
        channel: Option<u8>,
        message: Result<MidiMessage, MidiError>,
    ) -> bool {
        if channel_of(channel) <= CHANNEL_MAX {
            &&& message matches Ok(built)
            &&& built.status() == status_of(kind, channel_of(channel))
            &&& built.data() == (note_number, velocity)
        } else {
            message matches Err(MidiError::InvalidChannel)
        }
    }

    /// A note-off message: status `1000cccc` for channel `cccc`, then the note and the velocity.
    pub fn note_off(note_number: u8, velocity: u8, channel: Option<u8>) -> (message: Result<
        Self,
        MidiError,
    >)
        ensures
            Self::voiced(NOTE_OFF, note_number, velocity, channel, message),
    {
        let m_channel = match channel {
            Some(named) => named,
            None => DEFAULT_CHANNEL,
        };
        if m_channel <= CHANNEL_MAX {
            Ok(MidiMessage { status: NOTE_OFF | m_channel, data_byte: (note_number, velocity) })
        } else {
            Err(MidiError::InvalidChannel)
        }
    }

    /// A note-on message: status `1001cccc` for channel `cccc`, then the note and the velocity.
    pub fn note_on(note_number: u8, velocity: u8, channel: Option<u8>) -> (message: Result<
        Self,
        MidiError,
    >)
        ensures
            Self::voiced(NOTE_ON, note_number, velocity, channel, message),
    {
        let m_channel = match channel {
            Some(named) => named,
            None => DEFAULT_CHANNEL,
        };
        if m_channel <= CHANNEL_MAX {
            Ok(MidiMessage { status: NOTE_ON | m_channel, data_byte: (note_number, velocity) })
        } else {
            Err(MidiError::InvalidChannel)
        }
    }
}

/// How a status byte is packed: a kind that leaves the low four bits free and a channel that
/// fits in them do not overlap, so the high bits of the status are the kind, the low bits the
/// channel, and the status is their sum.
pub proof fn lemma_status_holds_kind_and_channel(kind: u8, channel: u8)
    requires
        kind & 0b00001111 == 0,
        channel <= CHANNEL_MAX,
    ensures
        status_of(kind, channel) & 0b11110000 == kind,
        status_of(kind, channel) & 0b00001111 == channel,
        status_of(kind, channel) == kind + channel,
{
    assert(kind & 0b00001111 == 0 && channel <= 0b00001111 ==> {
        &&& (kind | channel) & 0b11110000 == kind
        &&& (kind | channel) & 0b00001111 == channel
        &&& (kind | channel) == kind + channel
    }) by (bit_vector);
}

} // verus!

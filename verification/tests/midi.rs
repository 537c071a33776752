use netsblox_dsp::midi::{MidiError, MidiMessage, CHANNEL_MAX, DEFAULT_CHANNEL, NOTE_OFF, NOTE_ON};

#[test]
fn test_note_off() {
    let message_1 = MidiMessage::note_off(60, 255, None).unwrap();
    assert_eq!(message_1.status, 0b10000001);
    let message_2 = MidiMessage::note_off(60, 255, Some(3)).unwrap();
    assert_eq!(message_2.status, 0b10000011);
    assert!(MidiMessage::note_off(60, 255, Some(16)).is_err());
}

#[test]
fn test_note_on() {
    let message_1 = MidiMessage::note_on(60, 255, None).unwrap();
    assert_eq!(message_1.status, 0b10010001);
    let message_2 = MidiMessage::note_on(60, 255, Some(3)).unwrap();
    assert_eq!(message_2.status, 0b10010011);
    assert!(MidiMessage::note_on(60, 255, Some(16)).is_err());
}

#[test]
fn note_messages_carry_note_and_velocity() {
    let off = MidiMessage::note_off(60, 127, Some(2)).unwrap();
    assert_eq!(off.data(), (60, 127));
    assert_eq!(off.status(), 0x82);
    let on = MidiMessage::note_on(0, 255, None).unwrap();
    assert_eq!(on.data(), (0, 255));
    assert_eq!(on.status(), 0x91);
}

#[test]
fn every_channel_up_to_the_highest_is_accepted() {
    for channel in 0..=CHANNEL_MAX {
        let off = MidiMessage::note_off(1, 2, Some(channel)).unwrap();
        assert_eq!(off.status & 0xf0, NOTE_OFF);
        assert_eq!(off.status & 0x0f, channel);
        assert_eq!(off.status, NOTE_OFF + channel);
        let on = MidiMessage::note_on(1, 2, Some(channel)).unwrap();
        assert_eq!(on.status & 0xf0, NOTE_ON);
        assert_eq!(on.status & 0x0f, channel);
        assert_eq!(on.status, NOTE_ON + channel);
    }
}

#[test]
fn every_channel_above_the_highest_is_refused() {
    for channel in (CHANNEL_MAX + 1)..=255 {
        assert!(matches!(
            MidiMessage::note_off(60, 64, Some(channel)),
            Err(MidiError::InvalidChannel)
        ));
        assert!(matches!(
            MidiMessage::note_on(60, 64, Some(channel)),
            Err(MidiError::InvalidChannel)
        ));
    }
}

#[test]
fn a_message_without_channel_goes_to_the_default_channel() {
    assert_eq!(DEFAULT_CHANNEL, 1);
    let named = MidiMessage::note_on(60, 64, Some(DEFAULT_CHANNEL)).unwrap();
    let unnamed = MidiMessage::note_on(60, 64, None).unwrap();
    assert_eq!(named.status, unnamed.status);
    assert_eq!(named.data(), unnamed.data());
}

#[test]
fn midi_error_can_be_compared_and_shown() {
    let error = MidiMessage::note_on(60, 64, Some(200)).err().unwrap();
    assert_eq!(error, MidiError::InvalidChannel);
    assert_eq!(format!("{:?}", error), "InvalidChannel");
}

use pandagen::channel::{ChannelEnd, ChannelId};

#[test]
fn test_channel_id_creation() {
    let id1 = ChannelId::new();
    let id2 = ChannelId::new();
    assert_ne!(id1, id2);
}

#[test]
fn test_channel_end_sender() {
    let id = ChannelId::new();
    let end = ChannelEnd::Sender(id);
    assert!(end.is_sender());
    assert!(!end.is_receiver());
    assert_eq!(end.channel_id(), id);
}

#[test]
fn test_channel_end_receiver() {
    let id = ChannelId::new();
    let end = ChannelEnd::Receiver(id);
    assert!(!end.is_sender());
    assert!(end.is_receiver());
    assert_eq!(end.channel_id(), id);
}

#[test]
fn test_channel_end_equality() {
    let id = ChannelId::new();
    let sender1 = ChannelEnd::Sender(id);
    let sender2 = ChannelEnd::Sender(id);
    let receiver = ChannelEnd::Receiver(id);

    assert_eq!(sender1, sender2);
    assert_ne!(sender1, receiver);
}

#[test]
fn channel_text_shows_the_uuid() {
    let id = ChannelId::from_uuid(0x0123_4567_89ab_cdef_0123_4567_89ab_cdef);
    assert_eq!(id.as_uuid(), 0x0123_4567_89ab_cdef_0123_4567_89ab_cdef);
    assert_eq!(id.to_string(), "Channel(01234567-89ab-cdef-0123-456789abcdef)");
    assert_eq!(
        ChannelEnd::Receiver(id).to_string(),
        "Receiver(Channel(01234567-89ab-cdef-0123-456789abcdef))"
    );
}

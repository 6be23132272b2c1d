use api::ids::VirtualChannelId;

#[test]
fn room_name_is_owner_then_channel() {
    let id = VirtualChannelId { channel_id: 80351110224678912, owner_id: 7 };
    assert_eq!(id.to_string(), "7;80351110224678912");
}

#[test]
fn room_name_round_trip() {
    for (owner_id, channel_id) in [(1u64, 1u64), (10, 9), (u64::MAX, 42), (123456789, u64::MAX)] {
        let id = VirtualChannelId { channel_id, owner_id };
        assert_eq!(VirtualChannelId::from_str(&id.to_string()), Some(id));
    }
}

#[test]
fn room_name_parse_rules() {
    assert_eq!(
        VirtualChannelId::from_str("+12;0034"),
        Some(VirtualChannelId { channel_id: 34, owner_id: 12 })
    );
    assert_eq!(VirtualChannelId::from_str("12"), None);
    assert_eq!(VirtualChannelId::from_str("0;5"), None);
    assert_eq!(VirtualChannelId::from_str("5;0"), None);
    assert_eq!(VirtualChannelId::from_str("5;6;7"), None);
    assert_eq!(VirtualChannelId::from_str(";6"), None);
    assert_eq!(VirtualChannelId::from_str("a;6"), None);
    assert_eq!(VirtualChannelId::from_str("18446744073709551616;6"), None);
}

#[test]
fn id_from_owner_and_channel() {
    let id = VirtualChannelId::from((5u64, 9u64));
    assert_eq!(id, VirtualChannelId { channel_id: 9, owner_id: 5 });
    assert_eq!(id.to_string(), "5;9");
}

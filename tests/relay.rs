use api::ids::VirtualChannelId;
use api::registry::VirtualChannels;
use api::relay::{
    broadcast_event_in_channel, create_virtual_channel, delete_virtual_channel, listen_to_channel,
    on_disconnect, Ack, CreateVirtualChannelRequest, RelayError, RoomAction,
};

const OWNER: u64 = 111;
const SUBSCRIBER: u64 = 222;
const STRANGER: u64 = 333;
const SOURCE: u64 = 444;

fn request(channel_id: u64, allowed: Vec<u64>) -> CreateVirtualChannelRequest {
    CreateVirtualChannelRequest {
        channel_id,
        channel_data: String::from("{\"name\":\"general\"}"),
        allowed_user_ids: allowed,
    }
}

fn id(owner_id: u64, channel_id: u64) -> VirtualChannelId {
    VirtualChannelId { channel_id, owner_id }
}

fn registry_with_channel() -> VirtualChannels {
    let mut registry = VirtualChannels::new();
    let out = create_virtual_channel(&mut registry, OWNER, request(SOURCE, vec![OWNER, SUBSCRIBER]));
    assert_eq!(out.ack, Ack::Accepted);
    registry
}

#[test]
fn create_joins_owner_to_room() {
    let mut registry = VirtualChannels::default();
    let out = create_virtual_channel(&mut registry, OWNER, request(SOURCE, vec![OWNER]));
    assert_eq!(out.ack, Ack::Accepted);
    assert!(matches!(out.room, RoomAction::Join(ref name) if name == "111;444"));
    assert!(out.snapshot.is_none());
    assert_eq!(registry.len(), 1);
}

#[test]
fn subscriber_listens_and_receives_broadcast() {
    let registry = registry_with_channel();
    let listen = listen_to_channel(&registry, SUBSCRIBER, id(OWNER, SOURCE));
    assert_eq!(listen.ack, Ack::Accepted);
    assert!(matches!(listen.room, RoomAction::Join(ref name) if name == "111;444"));
    assert_eq!(listen.snapshot.as_deref(), Some("{\"name\":\"general\"}"));
    let broadcast = broadcast_event_in_channel(&registry, OWNER, SOURCE);
    assert_eq!(broadcast.ack, Ack::Accepted);
    assert!(matches!(broadcast.room, RoomAction::Broadcast(ref name) if name == "111;444"));
}

#[test]
fn stranger_is_forbidden() {
    let registry = registry_with_channel();
    let out = listen_to_channel(&registry, STRANGER, id(OWNER, SOURCE));
    assert_eq!(out.ack, Ack::Refused(RelayError::Forbidden));
    assert!(matches!(out.room, RoomAction::Stay));
    assert!(out.snapshot.is_none());
}

#[test]
fn listen_to_missing_channel_is_not_found() {
    let registry = registry_with_channel();
    let out = listen_to_channel(&registry, SUBSCRIBER, id(OWNER, 999));
    assert_eq!(out.ack, Ack::Refused(RelayError::NotFound));
    assert!(matches!(out.room, RoomAction::Stay));
}

#[test]
fn disconnect_revokes_owned_channels() {
    let mut registry = registry_with_channel();
    create_virtual_channel(&mut registry, OWNER, request(555, vec![SUBSCRIBER]));
    create_virtual_channel(&mut registry, STRANGER, request(SOURCE, vec![SUBSCRIBER]));
    assert_eq!(registry.len(), 3);
    on_disconnect(&mut registry, OWNER);
    assert_eq!(registry.len(), 1);
    let out = listen_to_channel(&registry, SUBSCRIBER, id(OWNER, SOURCE));
    assert_eq!(out.ack, Ack::Refused(RelayError::NotFound));
    let other = listen_to_channel(&registry, SUBSCRIBER, id(STRANGER, SOURCE));
    assert_eq!(other.ack, Ack::Accepted);
    on_disconnect(&mut registry, OWNER);
    assert_eq!(registry.len(), 1);
}

#[test]
fn delete_by_non_owner_is_not_found() {
    let mut registry = registry_with_channel();
    let out = delete_virtual_channel(&mut registry, SUBSCRIBER, SOURCE);
    assert_eq!(out.ack, Ack::Refused(RelayError::NotFound));
    assert!(matches!(out.room, RoomAction::Stay));
    assert_eq!(registry.len(), 1);
    let missing = delete_virtual_channel(&mut registry, OWNER, 999);
    assert_eq!(missing.ack, Ack::Refused(RelayError::NotFound));
}

#[test]
fn delete_by_owner_then_listen_is_not_found() {
    let mut registry = registry_with_channel();
    let out = delete_virtual_channel(&mut registry, OWNER, SOURCE);
    assert_eq!(out.ack, Ack::Accepted);
    assert!(matches!(out.room, RoomAction::Leave(ref name) if name == "111;444"));
    assert_eq!(registry.len(), 0);
    let listen = listen_to_channel(&registry, SUBSCRIBER, id(OWNER, SOURCE));
    assert_eq!(listen.ack, Ack::Refused(RelayError::NotFound));
}

#[test]
fn broadcast_by_non_owner_is_not_found() {
    let registry = registry_with_channel();
    let out = broadcast_event_in_channel(&registry, SUBSCRIBER, SOURCE);
    assert_eq!(out.ack, Ack::Refused(RelayError::NotFound));
    assert!(matches!(out.room, RoomAction::Stay));
}

#[test]
fn distinct_creates_are_all_kept() {
    let mut registry = VirtualChannels::new();
    let n: u64 = 50;
    for k in 1..=n {
        create_virtual_channel(&mut registry, k, request(1000 + k, vec![k]));
    }
    assert_eq!(registry.len(), n as usize);
    for k in 1..=n {
        assert_eq!(listen_to_channel(&registry, k, id(k, 1000 + k)).ack, Ack::Accepted);
    }
}

#[test]
fn recreate_replaces_allow_list() {
    let mut registry = registry_with_channel();
    create_virtual_channel(&mut registry, OWNER, request(SOURCE, vec![STRANGER]));
    assert_eq!(registry.len(), 1);
    assert_eq!(
        listen_to_channel(&registry, SUBSCRIBER, id(OWNER, SOURCE)).ack,
        Ack::Refused(RelayError::Forbidden)
    );
    assert_eq!(listen_to_channel(&registry, STRANGER, id(OWNER, SOURCE)).ack, Ack::Accepted);
}

#[test]
fn relay_error_messages() {
    assert_eq!(RelayError::NotFound.message(), "virtual channel not found");
    assert_eq!(RelayError::Forbidden.message(), "not allowed to view channel");
    assert_eq!(RelayError::Malformed.message(), "malformed request");
    assert_eq!(RelayError::Internal.message(), "internal error");
}

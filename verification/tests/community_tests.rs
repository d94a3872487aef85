use ddnet_core::community::{CommunityConnections, Event, NetworkConnectionId};

#[test]
fn connection_without_account_is_kicked() {
    let mut c = CommunityConnections::new();
    let id = NetworkConnectionId(4);
    assert_eq!(c.on_connected(id, None), Some(Event::Kick(id)));
    assert_eq!(c.account_of(id), None);
}

#[test]
fn logged_in_user_until_disconnect() {
    let mut c = CommunityConnections::new();
    let id = NetworkConnectionId(1);
    assert_eq!(c.on_connected(id, Some(77)), None);
    assert_eq!(c.account_of(id), Some(77));
    c.on_disconnected(id);
    assert_eq!(c.account_of(id), None);
}

#[test]
fn friend_pairs_put_the_smaller_id_first() {
    let mut c = CommunityConnections::new();
    let a = NetworkConnectionId(1);
    let b = NetworkConnectionId(2);
    c.on_connected(a, Some(10));
    c.on_connected(b, Some(5));
    assert_eq!(c.friend_request(a, 5), Some((5, 10)));
    assert_eq!(c.friend_request(b, 10), Some((5, 10)));
    assert_eq!(c.friend_request(a, 10), None);
    assert_eq!(c.friend_request(NetworkConnectionId(3), 10), None);
}

//! Tests for the connection-notification channel: only the last message
//! pushed for a key since the last poll is delivered.

use safety_rules::conn_notifs_channel::{
    new, ConnNotifsChannel, ConnectionNotification, DisconnectReason,
};

fn send_new_peer(channel: &mut ConnNotifsChannel, peer_id: u64) {
    channel.push(peer_id, ConnectionNotification::NewPeer(peer_id));
}

fn send_lost_peer(channel: &mut ConnNotifsChannel, peer_id: u64, reason: DisconnectReason) {
    channel.push(peer_id, ConnectionNotification::LostPeer(peer_id, reason));
}

#[test]
fn send_n_get_1() {
    let mut channel = new();
    let peer_id_a: u64 = 10;
    let peer_id_b: u64 = 20;
    send_new_peer(&mut channel, peer_id_a);
    send_lost_peer(&mut channel, peer_id_a, DisconnectReason::ConnectionLost);
    send_new_peer(&mut channel, peer_id_a);
    send_lost_peer(&mut channel, peer_id_a, DisconnectReason::Requested);

    // Ensure that only the last message is received.
    let notif = ConnectionNotification::LostPeer(peer_id_a, DisconnectReason::Requested);
    assert_eq!(channel.pop(), Some(notif));
    // Ensures that there is no other value which is ready
    assert_eq!(channel.pop(), None);

    send_new_peer(&mut channel, peer_id_a);
    send_new_peer(&mut channel, peer_id_b);

    // Assert that we receive 2 updates, since they are sent for different peers.
    let _ = channel.pop().unwrap();
    let _ = channel.pop().unwrap();
    // Ensures that there is no other value which is ready
    assert_eq!(channel.pop(), None);
}

#[test]
fn distinct_keys_keep_arrival_order() {
    let mut channel = new();
    send_new_peer(&mut channel, 1);
    send_new_peer(&mut channel, 2);
    send_lost_peer(&mut channel, 1, DisconnectReason::Requested);
    assert_eq!(
        channel.pop(),
        Some(ConnectionNotification::LostPeer(1, DisconnectReason::Requested))
    );
    assert_eq!(channel.pop(), Some(ConnectionNotification::NewPeer(2)));
    assert_eq!(channel.pop(), None);
}

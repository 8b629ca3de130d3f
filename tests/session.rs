use xcop::network::PORT;
use xcop::{
    compose_message, Action, ClipboardData, ClipboardError, MessageType, PeerAddr, PeerData,
    Session, SessionCommand, StringType,
};

const X_IP: u32 = 0xc0a8_0102; // 192.168.1.2
const Y_IP: u32 = 0xc0a8_0103; // 192.168.1.3

fn node(name: &str, ip: u32) -> Session {
    Session::new(
        PeerData {
            peer_name: name.to_string(),
        },
        ip,
        0,
    )
}

fn datagram_bytes(actions: &[Action]) -> Vec<u8> {
    match &actions[0] {
        Action::SendDatagram(_, b) => b.clone(),
        other => panic!("expected a datagram, got {:?}", other),
    }
}

fn rebinds(actions: &[Action]) -> usize {
    actions.iter().filter(|a| **a == Action::Rebind).count()
}

#[test]
fn announce_and_acknowledge_fill_both_tables() {
    let x_addr = PeerAddr::new(X_IP, PORT);
    let y_addr = PeerAddr::new(Y_IP, PORT);
    let mut x = node("X", X_IP);
    let mut y = node("Y", Y_IP);

    let hello = x.announce();
    assert_eq!(hello.len(), 1);
    assert!(matches!(&hello[0], Action::SendDatagram(a, _) if *a == PeerAddr::broadcast()));

    let y_actions = y.on_datagram(x_addr, datagram_bytes(&hello));
    assert_eq!(y_actions.len(), 2);
    let ack = compose_message(
        &MessageType::Xacn(PeerData {
            peer_name: "Y".to_string(),
        }),
        1,
    )
    .unwrap();
    assert_eq!(y_actions[0], Action::SendDatagram(x_addr, ack.clone()));
    assert_eq!(
        y_actions[1],
        Action::AddMenuEntry("copy from X".to_string(), x_addr)
    );

    let x_actions = x.on_datagram(y_addr, ack);
    assert_eq!(
        x_actions,
        vec![Action::AddMenuEntry("copy from Y".to_string(), y_addr)]
    );

    assert_eq!(x.peers.len(), 1);
    assert_eq!(x.peers[&Y_IP].peer_name, "Y");
    assert_eq!(y.peers.len(), 1);
    assert_eq!(y.peers[&X_IP].peer_name, "X");
}

#[test]
fn known_peer_is_acknowledged_but_not_added_twice() {
    let x_addr = PeerAddr::new(X_IP, PORT);
    let mut x = node("X", X_IP);
    let mut y = node("Y", Y_IP);
    let hello = datagram_bytes(&x.announce());
    y.on_datagram(x_addr, hello.clone());
    let again = y.on_datagram(x_addr, hello);
    assert_eq!(again.len(), 1);
    assert!(matches!(&again[0], Action::SendDatagram(a, _) if *a == x_addr));
    assert_eq!(y.peers.len(), 1);
}

#[test]
fn copy_request_delivers_clipboard() {
    let x_addr = PeerAddr::new(X_IP, PORT);
    let y_addr = PeerAddr::new(Y_IP, PORT);
    let mut x = node("X", X_IP);
    let mut y = node("Y", Y_IP);

    let request = x.on_command(SessionCommand::Cmd(y_addr, MessageType::Xcpy), 10);
    let expected = compose_message(&MessageType::Xcpy, 1).unwrap();
    assert_eq!(request, vec![Action::SendDatagram(y_addr, expected.clone())]);

    let read = y.on_datagram(x_addr, expected);
    assert_eq!(read, vec![Action::ReadClipboard(x_addr)]);

    let clip = ClipboardData::String((StringType::Utf8Plain, b"hello".to_vec()));
    let sent = y.on_clipboard(x_addr, Ok(clip));
    assert_eq!(sent.len(), 1);
    let stream = match &sent[0] {
        Action::SendStream(to, bytes) => {
            assert_eq!(*to, x_addr);
            bytes.clone()
        }
        other => panic!("expected a stream, got {:?}", other),
    };

    let written = x.on_stream(stream);
    assert_eq!(
        written,
        vec![Action::WriteClipboard(ClipboardData::String((
            StringType::Utf8Plain,
            b"hello".to_vec()
        )))]
    );
}

#[test]
fn failed_clipboard_read_sends_nothing() {
    let y = node("Y", Y_IP);
    let r = y.on_clipboard(
        PeerAddr::new(X_IP, PORT),
        Err(ClipboardError::Read("busy".to_string())),
    );
    assert!(r.is_empty());
}

#[test]
fn stream_other_than_payload_is_dropped() {
    let x = node("X", X_IP);
    let bytes = compose_message(&MessageType::Xcpy, 1).unwrap();
    assert!(x.on_stream(bytes).is_empty());
    assert!(x.on_stream(vec![1, 2, 3]).is_empty());
}

#[test]
fn disconnect_removes_peer_and_menu_entry() {
    let y_addr = PeerAddr::new(Y_IP, PORT);
    let bye = compose_message(&MessageType::Xdis, 1).unwrap();

    let mut x = node("X", X_IP);
    let r = x.on_datagram(y_addr, bye.clone());
    assert_eq!(r, vec![Action::RemoveMenuEntry(y_addr)]);
    assert!(x.peers.is_empty());

    let mut y = node("Y", Y_IP);
    let hello = datagram_bytes(&y.announce());
    x.on_datagram(y_addr, hello);
    assert_eq!(x.peers.len(), 1);
    let r = x.on_datagram(y_addr, bye);
    assert_eq!(r, vec![Action::RemoveMenuEntry(y_addr)]);
    assert!(x.peers.is_empty());
}

#[test]
fn own_and_loopback_datagrams_are_ignored() {
    let mut x = node("X", X_IP);
    let hello = datagram_bytes(&x.announce());
    assert!(x.on_datagram(PeerAddr::new(X_IP, PORT), hello.clone()).is_empty());
    assert!(x.on_datagram(PeerAddr::new(0x7f00_0001, PORT), hello).is_empty());
    assert!(x.peers.is_empty());
}

#[test]
fn garbage_datagram_changes_nothing() {
    let mut x = node("X", X_IP);
    assert!(x.on_datagram(PeerAddr::new(Y_IP, PORT), vec![0, 1, 2]).is_empty());
    assert!(x.peers.is_empty());
}

#[test]
fn discover_twice_empties_table_without_duplicate_entries() {
    let y_addr = PeerAddr::new(Y_IP, PORT);
    let mut x = node("X", X_IP);
    let mut y = node("Y", Y_IP);
    x.on_datagram(y_addr, datagram_bytes(&y.announce()));
    assert_eq!(x.peers.len(), 1);

    let first = x.on_command(SessionCommand::Discover, 100);
    assert!(x.peers.is_empty());
    let second = x.on_command(SessionCommand::Discover, 200);
    assert!(x.peers.is_empty());
    assert_eq!(first, second);
    assert_eq!(first[0], Action::RemoveAllMenuEntries);
    assert_eq!(first.len(), 2);
    assert!(!second
        .iter()
        .any(|a| matches!(a, Action::AddMenuEntry(_, _))));
    assert_eq!(x.last_rediscover, 200);
}

#[test]
fn burst_of_network_changes_rebinds_once() {
    let mut x = node("X", X_IP);
    let mut count = 0;
    count += rebinds(&x.on_command(SessionCommand::NetworkChange, 0));
    count += rebinds(&x.on_tick(400));
    count += rebinds(&x.on_command(SessionCommand::NetworkChange, 500));
    count += rebinds(&x.on_command(SessionCommand::NetworkChange, 1000));
    count += rebinds(&x.on_tick(2500));
    count += rebinds(&x.on_tick(3000));
    assert_eq!(count, 0);
    let fired = x.on_tick(3001);
    assert_eq!(fired, vec![Action::RemoveAllMenuEntries, Action::Rebind]);
    assert!(!x.bound);
    assert_eq!(x.pending_change, None);

    let back = x.on_rebind(Some(0x0a00_0005));
    assert_eq!(back.len(), 1);
    assert!(x.bound);
    assert_eq!(x.local_ip, 0x0a00_0005);
    assert_eq!(rebinds(&x.on_tick(5000)), 0);
}

#[test]
fn failed_rebind_is_retried_on_the_next_tick() {
    let mut x = node("X", X_IP);
    x.on_command(SessionCommand::NetworkChange, 0);
    assert_eq!(rebinds(&x.on_tick(2001)), 1);
    assert!(x.on_rebind(None).is_empty());
    assert_eq!(x.on_tick(3000), vec![Action::Rebind]);
    x.on_rebind(Some(X_IP));
    assert!(x.on_tick(4000).is_empty());
}

#[test]
fn periodic_rediscovery_resets_and_announces() {
    let mut x = node("X", X_IP);
    assert!(x.on_tick(300_000).is_empty());
    let r = x.on_tick(300_001);
    assert_eq!(r.len(), 2);
    assert_eq!(r[0], Action::RemoveAllMenuEntries);
    assert!(matches!(&r[1], Action::SendDatagram(a, _) if *a == PeerAddr::broadcast()));
    assert_eq!(x.last_rediscover, 300_001);
}

#[test]
fn stop_broadcasts_disconnect() {
    let mut x = node("X", X_IP);
    let r = x.on_command(SessionCommand::Stop, 5);
    let bye = compose_message(&MessageType::Xdis, 1).unwrap();
    assert_eq!(r, vec![Action::SendDatagram(PeerAddr::broadcast(), bye)]);
    assert!(x.stopped);
}

#[test]
fn commands_other_than_copy_are_ignored() {
    let mut x = node("X", X_IP);
    let r = x.on_command(SessionCommand::Cmd(PeerAddr::new(Y_IP, PORT), MessageType::Xdis), 5);
    assert!(r.is_empty());
}

#[test]
fn menu_buttons_are_built() {
    let s = xcop::ButtonData::from_str_static("Discover");
    assert_eq!(s.btn_title, "Discover");
    assert!(s.is_static && s.attrs_str.is_none() && s.index == Some(0));
    let d = xcop::ButtonData::from_str_dyn("copy from X");
    assert!(!d.is_static);
    assert_eq!(
        xcop::session::menu_label(&PeerData {
            peer_name: "Ünï".to_string()
        }),
        "copy from Ünï"
    );
}

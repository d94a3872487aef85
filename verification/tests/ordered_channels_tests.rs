use ddnet_core::network_types::{NetworkInOrderChannel, UnreliableUnorderedError};
use ddnet_core::ordered_channels::{
    decode_ordered_frame, frame_ordered_packet, FrameDecode, InOrderChannels, OrderedSendError,
};

#[test]
fn frame_layout() {
    let f = frame_ordered_packet(&[9, 8, 7]);
    assert_eq!(f, vec![3, 0, 0, 0, 0, 0, 0, 0, 9, 8, 7]);
    assert_eq!(frame_ordered_packet(&[]), vec![0; 8]);
}

#[test]
fn frame_roundtrip() {
    let packet: Vec<u8> = (0..300u32).map(|i| i as u8).collect();
    let mut buf = frame_ordered_packet(&packet);
    buf.extend_from_slice(&[1, 2, 3]);
    assert_eq!(
        decode_ordered_frame(&buf, 1024),
        FrameDecode::Packet { data: packet.clone(), consumed: 308 }
    );
    assert_eq!(decode_ordered_frame(&buf, 299), FrameDecode::TooLarge);
    assert_eq!(decode_ordered_frame(&buf[..5], 1024), FrameDecode::Incomplete);
    assert_eq!(decode_ordered_frame(&buf[..100], 1024), FrameDecode::Incomplete);
}

#[test]
fn channels_are_fifo() {
    let mut c = InOrderChannels::new();
    assert_eq!(
        c.take_one_ordered_reliable(NetworkInOrderChannel::Global),
        Err(OrderedSendError::ChannelMissing)
    );
    c.push_ordered_reliable_packet_in_order(vec![1], NetworkInOrderChannel::Custom(3));
    c.push_ordered_reliable_packet_in_order(vec![2], NetworkInOrderChannel::Custom(3));
    assert_eq!(c.take_one_ordered_reliable(NetworkInOrderChannel::Custom(3)), Ok(vec![1]));
    assert_eq!(c.take_one_ordered_reliable(NetworkInOrderChannel::Custom(3)), Ok(vec![2]));
    assert_eq!(
        c.take_one_ordered_reliable(NetworkInOrderChannel::Custom(3)),
        Err(OrderedSendError::NoPacketQueued)
    );
}

#[test]
fn channels_fall_back_to_global() {
    let mut c = InOrderChannels::new();
    // nine custom channels, one stream stays reserved for the global one
    for i in 0..9 {
        c.push_ordered_reliable_packet_in_order(vec![i as u8], NetworkInOrderChannel::Custom(i));
    }
    c.push_ordered_reliable_packet_in_order(vec![100], NetworkInOrderChannel::Custom(50));
    assert_eq!(c.take_one_ordered_reliable(NetworkInOrderChannel::Custom(50)), Ok(vec![100]));
    assert_eq!(c.take_one_ordered_reliable(NetworkInOrderChannel::Global), Err(OrderedSendError::NoPacketQueued));
    assert_eq!(c.take_one_ordered_reliable(NetworkInOrderChannel::Custom(4)), Ok(vec![4]));
}

#[test]
fn unreliable_fallback() {
    assert!(UnreliableUnorderedError::TooLarge.falls_back_to_reliable());
    assert!(UnreliableUnorderedError::Disabled.falls_back_to_reliable());
    assert!(!UnreliableUnorderedError::ConnectionClosed("x".into()).falls_back_to_reliable());
}

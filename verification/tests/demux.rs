use quicheperf::demux::is_packet_quic;
use quicheperf::demux::Delivery;
use quicheperf::demux::Multiplexer;

#[test]
fn quic_packets_have_the_fixed_bit() {
    assert!(is_packet_quic(&[0x40]));
    assert!(is_packet_quic(&[0xc3, 0x00]));
    assert!(is_packet_quic(&[0x7f]));
}

#[test]
fn other_packets_lack_the_fixed_bit() {
    assert!(!is_packet_quic(&[0x00]));
    assert!(!is_packet_quic(&[0x01, 0x40]));
    assert!(!is_packet_quic(&[0x80]));
    assert!(!is_packet_quic(&[0xbf]));
}

#[test]
fn a_multiplexer_without_callbacks_drops_everything() {
    let mux: Multiplexer<u8, u16> = Multiplexer::new();
    assert_eq!(mux.route(&[0x40]), Delivery::Dropped);
    assert_eq!(mux.route(&[0x00]), Delivery::Dropped);
}

#[test]
fn datagrams_go_to_the_callback_of_their_kind() {
    let mut mux: Multiplexer<u8, u16> = Multiplexer::new();
    mux.register_ice_callback(7);
    assert_eq!(mux.route(&[0x01, 0x02]), Delivery::Ice(&7));
    assert_eq!(mux.route(&[0x41, 0x02]), Delivery::Dropped);
    mux.register_quic_callback(9);
    assert_eq!(mux.route(&[0x41, 0x02]), Delivery::Quic(&9));
    assert_eq!(mux.route(&[0x01, 0x02]), Delivery::Ice(&7));
}

#[test]
fn a_later_callback_replaces_an_earlier_one() {
    let mut mux: Multiplexer<u8, u16> = Multiplexer::new();
    mux.register_quic_callback(1);
    mux.register_quic_callback(2);
    mux.register_ice_callback(3);
    mux.register_ice_callback(4);
    assert_eq!(mux.route(&[0xff]), Delivery::Quic(&2));
    assert_eq!(mux.route(&[0x3f]), Delivery::Ice(&4));
}

fn note_len(buf: &mut [u8]) -> usize {
    buf.len()
}

#[test]
fn callbacks_can_be_functions() {
    let mut mux: Multiplexer<fn(&mut [u8]) -> usize, fn(&mut [u8]) -> usize> = Multiplexer::new();
    mux.register_quic_callback(note_len);
    let mut buf = [0x40u8, 1, 2];
    let called = match mux.route(&buf) {
        Delivery::Quic(cb) => Some(*cb),
        _ => None,
    };
    assert_eq!(called.map(|cb| cb(&mut buf)), Some(3));
}

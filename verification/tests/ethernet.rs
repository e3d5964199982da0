use pnet::packet::ethernet::{EtherTypes, MutableEthernetPacket};
use rand::Rng;
use sniffer::errors::{DecodeError, Layer};
use sniffer::packets::datalink::ethernet::{EtherType, Ethernet, Mac};
use sniffer::packets::datalink::DataLink;
use sniffer::packets::Parsable;

#[test]
fn forloop() {
    let mut rng = rand::thread_rng();

    for _ in 0..100 {
        let a = rng.gen();
        let b = rng.gen();
        let c = rng.gen();
        let d = rng.gen();
        let e = rng.gen();
        let f = rng.gen();

        let mac1 = Mac { a, b, c, d, e, f };
        let mac2 = Mac::parse(&[a, b, c, d, e, f]).unwrap().1;
        assert_eq!(mac1, mac2, "Parsing {:?} and {:?}", mac1, mac2);
    }
}

#[test]
fn pnet_testing() {
    let mut rng = rand::thread_rng();
    let source_mac = [rng.gen(); 6];
    let dest_mac = [rng.gen(); 6];
    let mut buff = [0u8; 42];
    let mut packet = MutableEthernetPacket::new(&mut buff).unwrap();
    packet.set_source(source_mac.into());
    packet.set_destination(dest_mac.into());
    packet.set_ethertype(EtherTypes::Ipv4);

    let (_rem, ethernet) = Ethernet::parse(&buff).unwrap();

    assert_eq!(
        ethernet,
        Ethernet {
            destination: Mac::parse(&dest_mac).unwrap().1,
            source: Mac::parse(&source_mac).unwrap().1,
            ethertype: sniffer::packets::datalink::ethernet::EtherType::IPv4
        }
    )
}

#[test]
fn mac_takes_six_bytes_in_order() {
    let bytes = [1u8, 2, 3, 4, 5, 6, 7, 8];
    let (rest, mac) = Mac::parse(&bytes).unwrap();
    assert_eq!(mac, Mac { a: 1, b: 2, c: 3, d: 4, e: 5, f: 6 });
    assert_eq!(rest, [7u8, 8].as_slice());
}

#[test]
fn mac_of_exactly_six_bytes_leaves_nothing() {
    let (rest, mac) = Mac::parse(&[0xAA, 0xBB, 0xCC, 0xDD, 0xEE, 0xFF]).unwrap();
    assert_eq!(mac, Mac { a: 0xAA, b: 0xBB, c: 0xCC, d: 0xDD, e: 0xEE, f: 0xFF });
    assert!(rest.is_empty());
}

#[test]
fn mac_truncated() {
    for k in 0..6usize {
        let bytes = vec![0x11u8; k];
        assert_eq!(
            Mac::parse(&bytes),
            Err(DecodeError::Truncated { needed: 6, available: k })
        );
    }
}

#[test]
fn mac_is_ordered_by_its_bytes() {
    let low = Mac { a: 0, b: 0, c: 0, d: 0, e: 0, f: 1 };
    let high = Mac { a: 0, b: 0, c: 0, d: 0, e: 1, f: 0 };
    assert!(low < high);
    assert_eq!(low, low.clone());
}

#[test]
fn ethertype_known_codes() {
    assert_eq!(
        EtherType::parse(&[0x08, 0x00, 0x45]),
        Ok(([0x45u8].as_slice(), EtherType::IPv4))
    );
    assert_eq!(
        EtherType::parse(&[0x08, 0x06]),
        Ok(([].as_slice(), EtherType::ARP))
    );
    assert_eq!(
        EtherType::parse(&[0x86, 0xDD]),
        Ok(([].as_slice(), EtherType::IPv6))
    );
}

#[test]
fn ethertype_codes() {
    assert_eq!(EtherType::IPv4.code(), 0x0800);
    assert_eq!(EtherType::ARP.code(), 0x0806);
    assert_eq!(EtherType::IPv6.code(), 0x86DD);
}

#[test]
fn ethertype_is_big_endian() {
    // 0x0008 is the code of IPv4 with its bytes swapped
    assert_eq!(
        EtherType::parse(&[0x00, 0x08]),
        Err(DecodeError::UnsupportedProtocol {
            code: 0x0008,
            layer: Layer::Ethernet
        })
    );
}

#[test]
fn ethertype_unknown_code() {
    assert_eq!(
        EtherType::parse(&[0x88, 0xCC, 1, 2, 3]),
        Err(DecodeError::UnsupportedProtocol {
            code: 0x88CC,
            layer: Layer::Ethernet
        })
    );
}

#[test]
fn ethertype_truncated() {
    assert_eq!(
        EtherType::parse(&[]),
        Err(DecodeError::Truncated { needed: 2, available: 0 })
    );
    assert_eq!(
        EtherType::parse(&[0x08]),
        Err(DecodeError::Truncated { needed: 2, available: 1 })
    );
}

fn frame(ethertype: [u8; 2]) -> Vec<u8> {
    let mut bytes = vec![
        0xAA, 0xBB, 0xCC, 0xDD, 0xEE, 0xFF, 0x11, 0x22, 0x33, 0x44, 0x55, 0x66,
    ];
    bytes.extend_from_slice(&ethertype);
    bytes
}

#[test]
fn ethernet_header_fields_and_rest() {
    let mut bytes = frame([0x08, 0x00]);
    bytes.extend_from_slice(&[9, 8, 7]);
    let (rest, ethernet) = Ethernet::parse(&bytes).unwrap();
    assert_eq!(
        ethernet,
        Ethernet {
            destination: Mac { a: 0xAA, b: 0xBB, c: 0xCC, d: 0xDD, e: 0xEE, f: 0xFF },
            source: Mac { a: 0x11, b: 0x22, c: 0x33, d: 0x44, e: 0x55, f: 0x66 },
            ethertype: EtherType::IPv4,
        }
    );
    assert_eq!(rest, [9u8, 8, 7].as_slice());
}

#[test]
fn ethernet_accepts_arp_and_ipv6() {
    assert_eq!(
        Ethernet::parse(&frame([0x08, 0x06])).unwrap().1.ethertype,
        EtherType::ARP
    );
    assert_eq!(
        Ethernet::parse(&frame([0x86, 0xDD])).unwrap().1.ethertype,
        EtherType::IPv6
    );
}

#[test]
fn ethernet_truncated_for_every_short_length() {
    let full = frame([0x08, 0x00]);
    for k in 0..14usize {
        assert_eq!(
            Ethernet::parse(&full[..k]),
            Err(DecodeError::Truncated { needed: 14, available: k })
        );
    }
}

#[test]
fn ethernet_unknown_ethertype() {
    assert_eq!(
        Ethernet::parse(&frame([0x12, 0x34])),
        Err(DecodeError::UnsupportedProtocol {
            code: 0x1234,
            layer: Layer::Ethernet
        })
    );
}

#[test]
fn ethernet_short_input_is_truncated_whatever_it_holds() {
    // thirteen bytes: the code is unknown as far as it is there, but the
    // header is short first
    let bytes = [0xFFu8; 13];
    assert_eq!(
        Ethernet::parse(&bytes),
        Err(DecodeError::Truncated { needed: 14, available: 13 })
    );
}

#[test]
fn datalink_wraps_the_ethernet_header() {
    let bytes = frame([0x08, 0x06]);
    let (rest, datalink) = DataLink::parse(&bytes).unwrap();
    let (_, ethernet) = Ethernet::parse(&bytes).unwrap();
    assert_eq!(datalink, DataLink::Ethernet(ethernet));
    assert_eq!(datalink.protocol_tag(), EtherType::ARP);
    assert!(rest.is_empty());
}

#[test]
fn datalink_hands_on_the_ethernet_error() {
    assert_eq!(
        DataLink::parse(&[1, 2, 3]),
        Err(DecodeError::Truncated { needed: 14, available: 3 })
    );
}

/// Spells a header the way the wire does.
fn encode(header: &Ethernet) -> Vec<u8> {
    let d = header.destination;
    let s = header.source;
    let mut bytes = vec![d.a, d.b, d.c, d.d, d.e, d.f, s.a, s.b, s.c, s.d, s.e, s.f];
    bytes.extend_from_slice(&header.ethertype.code().to_be_bytes());
    bytes
}

#[test]
fn mac_round_trip() {
    for seed in 0..=255u8 {
        let mac = Mac {
            a: seed,
            b: seed.wrapping_mul(3),
            c: seed.wrapping_add(17),
            d: !seed,
            e: seed ^ 0x5A,
            f: seed.rotate_left(3),
        };
        let bytes = [mac.a, mac.b, mac.c, mac.d, mac.e, mac.f, 0xEE];
        assert_eq!(Mac::parse(&bytes), Ok(([0xEEu8].as_slice(), mac)));
    }
}

#[test]
fn ethernet_round_trip() {
    for ethertype in [EtherType::IPv4, EtherType::ARP, EtherType::IPv6] {
        let header = Ethernet {
            destination: Mac { a: 1, b: 2, c: 3, d: 4, e: 5, f: 6 },
            source: Mac { a: 0xF1, b: 0xF2, c: 0xF3, d: 0xF4, e: 0xF5, f: 0xF6 },
            ethertype,
        };
        let mut bytes = encode(&header);
        assert_eq!(bytes.len(), 14);
        bytes.extend_from_slice(&[7, 7]);
        assert_eq!(Ethernet::parse(&bytes), Ok(([7u8, 7].as_slice(), header)));
    }
}

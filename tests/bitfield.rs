use bobby_bit::bitfield::BitField;
use bobby_bit::error::Error;

#[test]
fn test_bitfield_new() {
    let bitfield = BitField::new(vec![0b00000001, 0b00000000]);
    assert_eq!(bitfield.len, 2);
    assert_eq!(bitfield.payload, vec![0b00000001, 0b00000000]);
}

#[test]
fn bitfield_has() {
    let bf = BitField {
        payload: vec![0b10101010, 0b01010101],
        len: 16,
    };
    assert!(bf.has_piece(0));
    assert!(!bf.has_piece(1));
    assert!(!bf.has_piece(7));
    assert!(!bf.has_piece(8));
    assert!(bf.has_piece(15));
}

#[test]
fn bitfield_round_trip() {
    let bf = BitField::new(vec![0b1100_0000, 0xff, 0x01]);
    let bytes = bf.to_bytes();
    assert_eq!(bytes, vec![3, 0b1100_0000, 0xff, 0x01]);
    let back = BitField::from_bytes(&bytes).unwrap();
    assert_eq!(back, bf);
}

#[test]
fn bitfield_from_bytes_rejects_empty() {
    assert_eq!(BitField::from_bytes(&[]), Err(Error::InvalidFormat));
    let only_prefix = BitField::from_bytes(&[0]).unwrap();
    assert_eq!(only_prefix.len, 0);
    assert!(only_prefix.payload.is_empty());
}

#[test]
fn bitfield_set_and_unset_touch_one_bit() {
    let mut bf = BitField { payload: vec![0, 0], len: 16 };
    bf.set(9);
    assert_eq!(bf.payload, vec![0, 0b0100_0000]);
    assert!(bf.is_set(9));
    bf.set(0);
    assert_eq!(bf.payload, vec![0b1000_0000, 0b0100_0000]);
    bf.unset(9);
    assert_eq!(bf.payload, vec![0b1000_0000, 0]);
    assert!(!bf.is_set(9));
}

#[test]
fn bitfield_pieces_and_completion() {
    let bf = BitField { payload: vec![0b1010_0000, 0b1000_0000], len: 9 };
    assert_eq!(bf.pieces(), vec![0, 2, 8]);
    assert!(!bf.is_complete());
    let full = BitField { payload: vec![0xff, 0b1000_0000], len: 9 };
    assert!(full.is_complete());
    // bits past len do not count
    let padded = BitField { payload: vec![0xff, 0b1000_0000], len: 8 };
    assert_eq!(padded.pieces(), vec![0, 1, 2, 3, 4, 5, 6, 7]);
    assert!(padded.is_complete());
}

#[test]
fn bitfield_subset() {
    let a = BitField { payload: vec![0b1010_0000], len: 8 };
    let b = BitField { payload: vec![0b1110_0000], len: 8 };
    assert!(a.is_subset(&a));
    assert!(a.is_subset(&b));
    assert!(!b.is_subset(&a));
    // only the overlapping bits are compared
    let short = BitField { payload: vec![0b1110_0000], len: 1 };
    assert!(short.is_subset(&a));
}

#[test]
fn bitfield_iter_walks_len_bits() {
    let bf = BitField { payload: vec![0b0100_0000], len: 3 };
    let mut it = bf.iter();
    assert_eq!(it.next(), Some(false));
    assert_eq!(it.next(), Some(true));
    assert_eq!(it.next(), Some(false));
    assert_eq!(it.next(), None);
    assert_eq!(it.next(), None);
}

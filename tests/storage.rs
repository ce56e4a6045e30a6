use bobby_bit::error::Error;
use bobby_bit::storage::{Storage, BLOCK_SIZE};
use sha1::{Digest, Sha1};

fn digest(data: &[u8]) -> [u8; 20] {
    Sha1::digest(data).into()
}

fn content(len: usize) -> Vec<u8> {
    (0..len).map(|i| (i * 31 % 251) as u8).collect()
}

#[test]
fn twenty_piece_layout_and_completion() {
    let hashes = vec![[0u8; 20]; 20];
    let mut s = Storage::new(5_000_000, 262_144, hashes).unwrap();
    assert_eq!(s.piece_count(), 20);
    assert_eq!(s.piece_size(0), Ok(262_144));
    assert_eq!(s.piece_size(19), Ok(19_264));
    assert_eq!(s.piece_size(20), Err(Error::OutOfRange));
    for i in 0..20u64 {
        assert!(!s.is_complete());
        assert!(s.progress_percent() < 100);
        let len = s.piece_size(i).unwrap();
        assert_eq!(s.record_digest(i, len, &[0u8; 20]), Ok(true));
    }
    assert!(s.is_complete());
    assert_eq!(s.downloaded(), 5_000_000);
    assert_eq!(s.left(), 0);
    assert_eq!(s.progress_percent(), 100);
}

// The storage here keeps only the bookkeeping; its downloaded bytes count
// verified pieces, so the pieces carry their real digests and are verified
// instead of raising the counter by hand.
#[test]
fn test_storage_progress_and_completion() {
    let piece_length = 1024u64;
    let data = vec![1u8; 1024];
    let hashes = vec![digest(&data); 10];
    let mut storage = Storage::new(piece_length * 10, piece_length, hashes).unwrap();
    for i in 0..10u64 {
        assert_eq!(storage.block_offset(i, 0, data.len() as u64), Ok(i * 1024));
        assert_eq!(storage.verify_piece(i, &data), Ok(true));
    }
    assert!(storage.is_complete());
    assert_eq!(storage.progress_percent(), 100);
}

#[test]
fn blocks_in_any_order_verify_and_a_corrupt_byte_does_not() {
    let total = 40_000usize;
    let pl = 16_384usize;
    let file = content(total);
    let hashes: Vec<[u8; 20]> = file.chunks(pl).map(digest).collect();
    let mut s = Storage::new(total as u64, pl as u64, hashes).unwrap();
    let mut image = vec![0u8; total];
    for i in 0..s.piece_count() {
        let mut blocks = s.blocks(i).unwrap();
        blocks.reverse();
        for b in blocks {
            let off = s.block_offset(i, b.begin, b.length).unwrap() as usize;
            image[off..off + b.length as usize]
                .copy_from_slice(&file[off..off + b.length as usize]);
        }
    }
    for i in 0..3u64 {
        let start = i as usize * pl;
        let end = (start + pl).min(total);
        assert_eq!(s.verify_piece(i, &image[start..end]), Ok(true));
    }
    assert!(s.is_complete());
    image[pl + 5] ^= 1;
    assert_eq!(s.verify_piece(1, &image[pl..2 * pl]), Ok(false));
    assert!(!s.has_piece(1));
    assert!(!s.is_complete());
    assert_eq!(s.downloaded(), (total - pl) as u64);
    assert_eq!(s.verify_piece(3, &image[..1]), Err(Error::OutOfRange));
}

#[test]
fn block_bounds() {
    let s = Storage::new(40_000, 16_384, vec![[0u8; 20]; 3]).unwrap();
    assert_eq!(s.block_offset(2, 0, 7_232), Ok(32_768));
    assert_eq!(s.block_offset(2, 0, 7_233), Err(Error::OutOfRange));
    assert_eq!(s.block_offset(3, 0, 1), Err(Error::OutOfRange));
    assert_eq!(s.block_offset(0, u64::MAX, 1), Err(Error::OutOfRange));
    let blocks = s.blocks(2).unwrap();
    assert_eq!(blocks.len(), 1);
    assert_eq!(blocks[0].length, 7_232);
    let blocks = s.blocks(0).unwrap();
    assert_eq!(blocks.len(), 1);
    assert_eq!(blocks[0].length, BLOCK_SIZE);
    let big = Storage::new(100_000, 40_000, vec![[0u8; 20]; 3]).unwrap();
    let b = big.blocks(0).unwrap();
    assert_eq!(b.iter().map(|x| x.begin).collect::<Vec<_>>(), vec![0, 16384, 32768]);
    assert_eq!(b.iter().map(|x| x.length).collect::<Vec<_>>(), vec![16384, 16384, 7232]);
}

#[test]
fn storage_rejects_inconsistent_layout() {
    assert!(matches!(Storage::new(10, 0, vec![]), Err(Error::InvalidFormat)));
    assert!(matches!(Storage::new(10, 4, vec![[0u8; 20]; 2]), Err(Error::InvalidFormat)));
    let empty = Storage::new(0, 4, vec![]).unwrap();
    assert!(empty.is_complete());
    assert_eq!(empty.progress_percent(), 100);
}

#[test]
fn wrong_digest_or_length_does_not_verify() {
    let data = vec![3u8; 8];
    let mut s = Storage::new(8, 8, vec![digest(&data)]).unwrap();
    assert_eq!(s.record_digest(0, 8, &[1u8; 20]), Ok(false));
    assert_eq!(s.verify_piece(0, &data[..7]), Ok(false));
    assert_eq!(s.record_digest(1, 8, &[1u8; 20]), Err(Error::OutOfRange));
    assert_eq!(s.verify_piece(0, &data), Ok(true));
    assert_eq!(s.progress_percent(), 100);
}

#[test]
fn storage_pieces_and_bitfield() {
    let data = vec![5u8; 4];
    let mut s = Storage::new(36, 4, vec![digest(&data); 9]).unwrap();
    assert_eq!(s.verify_piece(0, &data), Ok(true));
    assert_eq!(s.verify_piece(8, &data), Ok(true));
    assert_eq!(s.verify_piece(3, &data), Ok(true));
    assert_eq!(s.pieces(), vec![0, 3, 8]);
    let bf = s.bitfield();
    assert_eq!(bf.len, 9);
    assert_eq!(bf.payload, vec![0b1001_0000, 0b1000_0000]);
    assert_eq!(bf.pieces(), vec![0, 3, 8]);
}

use parity_codec::Encode;
use srml_grandpa::primitives::AuthorityId;
use srml_grandpa::state::{OldStoredPendingChange, StoredPendingChange};

fn authorities(count: usize) -> Vec<([u8; 32], u64)> {
    (0..count).map(|i| ([(i % 251) as u8; 32], (i as u64) << 8 | 3)).collect()
}

fn typed(list: &[([u8; 32], u64)]) -> Vec<(AuthorityId, u64)> {
    list.iter().map(|(key, weight)| (AuthorityId(*key), *weight)).collect()
}

#[test]
fn change_is_read_from_bytes_written_by_hand() {
    let mut bytes = vec![5, 0, 0, 0, 0, 0, 0, 0];
    bytes.extend([1, 2, 0, 0, 0, 0, 0, 0]);
    bytes.push(2 << 2);
    bytes.extend([7; 32]);
    bytes.extend([9, 0, 0, 0, 0, 0, 0, 0]);
    bytes.extend([8; 32]);
    bytes.extend([0, 0, 0, 0, 0, 0, 0, 1]);
    bytes.extend([1, 4, 3, 2, 1, 0, 0, 0, 0]);
    assert_eq!(
        StoredPendingChange::decode(&bytes),
        Some(StoredPendingChange {
            scheduled_at: 5,
            delay: 0x0201,
            next_authorities: vec![(AuthorityId([7; 32]), 9), (AuthorityId([8; 32]), 1 << 56)],
            forced: Some(0x01020304),
        })
    );
}

#[test]
fn change_is_read_as_the_codec_writes_it() {
    for count in [0usize, 1, 63, 64, 70, 300, 16384, 16500] {
        let list = authorities(count);
        let mut bytes = (11u64, 22u64, list.clone()).encode();
        let legacy = bytes.len();
        bytes.extend(Some(33u64).encode());
        assert_eq!(
            StoredPendingChange::decode(&bytes),
            Some(StoredPendingChange {
                scheduled_at: 11,
                delay: 22,
                next_authorities: typed(&list),
                forced: Some(33),
            })
        );
        assert_eq!(
            OldStoredPendingChange::decode(&bytes),
            Some((
                OldStoredPendingChange {
                    scheduled_at: 11,
                    delay: 22,
                    next_authorities: typed(&list),
                },
                legacy
            ))
        );
    }
}

#[test]
fn change_without_the_forced_field_is_not_forced() {
    let list = authorities(3);
    let legacy = (1u64, 2u64, list.clone()).encode();
    let expected = StoredPendingChange {
        scheduled_at: 1,
        delay: 2,
        next_authorities: typed(&list),
        forced: None,
    };
    // the field is missing
    assert_eq!(StoredPendingChange::decode(&legacy), Some(expected.clone()));
    // the field says none
    let mut bytes = legacy.clone();
    bytes.push(0);
    assert_eq!(StoredPendingChange::decode(&bytes), Some(expected.clone()));
    // the field is cut short
    let mut bytes = legacy.clone();
    bytes.extend([1, 0, 0, 0, 0, 0, 0, 0]);
    assert_eq!(StoredPendingChange::decode(&bytes), Some(expected.clone()));
    // the field starts with a byte that means nothing
    let mut bytes = legacy.clone();
    bytes.extend([2, 0, 0, 0, 0, 0, 0, 0, 0]);
    assert_eq!(StoredPendingChange::decode(&bytes), Some(expected.clone()));
    // what follows the field is not read
    let mut bytes = legacy.clone();
    bytes.extend([1, 6, 0, 0, 0, 0, 0, 0, 0, 77, 77]);
    assert_eq!(
        StoredPendingChange::decode(&bytes),
        Some(StoredPendingChange { forced: Some(6), ..expected })
    );
}

#[test]
fn change_cut_short_is_not_read() {
    let bytes = (1u64, 2u64, authorities(2)).encode();
    assert_eq!(bytes.len(), 8 + 8 + 1 + 2 * 40);
    for len in 0..bytes.len() {
        assert_eq!(StoredPendingChange::decode(&bytes[..len]), None);
        assert_eq!(OldStoredPendingChange::decode(&bytes[..len]), None);
    }
    assert!(StoredPendingChange::decode(&bytes).is_some());
}

#[test]
fn compact_count_is_read_in_each_form() {
    let head = (1u64, 2u64).encode();

    // two bytes
    let mut bytes = head.clone();
    bytes.extend([0b0000_0101, 0]);
    bytes.extend([0u8; 40]);
    let change = StoredPendingChange::decode(&bytes).unwrap();
    assert_eq!(change.next_authorities.len(), 1);

    // four bytes
    let mut bytes = head.clone();
    bytes.extend([0b0000_1010, 0, 0, 0]);
    bytes.extend([0u8; 80]);
    let change = StoredPendingChange::decode(&bytes).unwrap();
    assert_eq!(change.next_authorities.len(), 2);

    // five bytes
    let mut bytes = head.clone();
    bytes.extend([0b0000_0011, 3, 0, 0, 0]);
    bytes.extend([0u8; 120]);
    let change = StoredPendingChange::decode(&bytes).unwrap();
    assert_eq!(change.next_authorities.len(), 3);

    // five bytes with further bits in the first
    let mut bytes = head.clone();
    bytes.extend([0b0000_0111, 3, 0, 0, 0]);
    bytes.extend([0u8; 120]);
    assert_eq!(StoredPendingChange::decode(&bytes), None);

    // a count for which the bytes do not suffice
    let mut bytes = head.clone();
    bytes.extend([0b0000_0011, 255, 255, 255, 255]);
    bytes.extend([0u8; 120]);
    assert_eq!(StoredPendingChange::decode(&bytes), None);
}

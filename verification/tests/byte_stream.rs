use ckb_fuzz_harness::byte_stream::{get_buf, le_u128, le_u16, le_u32, le_u64};

#[test]
fn get_buf_reads_whole_window() {
    let data = [1u8, 2, 3, 4, 5];
    let mut offset = 1usize;
    let r = get_buf(3, &data, &mut offset);
    assert_eq!(r, vec![2, 3, 4]);
    assert_eq!(offset, 4);
}

#[test]
fn get_buf_pads_past_end() {
    let data = [1u8, 2, 3];
    let mut offset = 1usize;
    let r = get_buf(4, &data, &mut offset);
    assert_eq!(r, vec![2, 3, 0, 0]);
    assert_eq!(offset, 3);
}

#[test]
fn get_buf_at_end_gives_zeros() {
    let data = [9u8, 9];
    let mut offset = 2usize;
    let r = get_buf(3, &data, &mut offset);
    assert_eq!(r, vec![0, 0, 0]);
    assert_eq!(offset, 2);
}

#[test]
fn get_buf_zero_length() {
    let data = [7u8, 8];
    let mut offset = 1usize;
    let r = get_buf(0, &data, &mut offset);
    assert!(r.is_empty());
    assert_eq!(offset, 1);
}

#[test]
fn get_buf_exact_end() {
    let data = [7u8, 8, 9];
    let mut offset = 1usize;
    let r = get_buf(2, &data, &mut offset);
    assert_eq!(r, vec![8, 9]);
    assert_eq!(offset, 3);
}

#[test]
fn get_buf_split_reads_match_one_read() {
    let data = [1u8, 2, 3, 4, 5, 6];
    let mut o1 = 2usize;
    let mut a = get_buf(3, &data, &mut o1);
    let b = get_buf(4, &data, &mut o1);
    a.extend(b);
    let mut o2 = 2usize;
    let whole = get_buf(7, &data, &mut o2);
    assert_eq!(a, whole);
    assert_eq!(o1, o2);
    assert_eq!(whole, vec![3, 4, 5, 6, 0, 0, 0]);
}

#[test]
fn little_endian_values() {
    assert_eq!(le_u16(&vec![0x34, 0x12]), 0x1234);
    assert_eq!(le_u32(&vec![0x78, 0x56, 0x34, 0x12]), 0x1234_5678);
    assert_eq!(le_u64(&vec![1, 0, 0, 0, 0, 0, 0, 0x80]), 0x8000_0000_0000_0001);
    assert_eq!(le_u128(&vec![0xff; 16]), u128::MAX);
    assert_eq!(le_u128(&vec![]), 0);
    assert_eq!(
        le_u32(&vec![1, 2, 3, 4]),
        u32::from_le_bytes([1, 2, 3, 4])
    );
}

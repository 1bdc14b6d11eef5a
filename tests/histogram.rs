use tropy::histogram::ByteHistogram;

#[test]
fn new_histogram_is_empty() {
    let h = ByteHistogram::new();
    assert_eq!(h.total(), 0);
    for v in 0..=255u8 {
        assert_eq!(h.count(v), 0);
    }
}

#[test]
fn counts_of_three_zeros_and_a_one() {
    let mut h = ByteHistogram::new();
    h.write(&[0x00, 0x00, 0x00, 0x01]);
    assert_eq!(h.total(), 4);
    assert_eq!(h.count(0), 3);
    assert_eq!(h.count(1), 1);
    for v in 2..=255u8 {
        assert_eq!(h.count(v), 0);
    }
}

#[test]
fn zero_filled_chunk_has_one_value() {
    for n in [1usize, 2, 7, 1024] {
        let mut h = ByteHistogram::new();
        h.write(&vec![0u8; n]);
        assert_eq!(h.total(), n as u64);
        assert_eq!(h.count(0), n as u64);
        for v in 1..=255u8 {
            assert_eq!(h.count(v), 0);
        }
    }
}

#[test]
fn every_value_twice_is_uniform() {
    let mut data: Vec<u8> = Vec::new();
    for _ in 0..2 {
        for v in 0..=255u8 {
            data.push(v);
        }
    }
    let mut h = ByteHistogram::new();
    h.write(&data);
    assert_eq!(h.total(), 512);
    for v in 0..=255u8 {
        assert_eq!(h.count(v), 2);
    }
}

#[test]
fn order_of_bytes_does_not_matter() {
    let a = [5u8, 9, 9, 200, 0, 5, 5, 17];
    let b = [9u8, 5, 17, 5, 200, 9, 0, 5];
    let mut ha = ByteHistogram::new();
    ha.write(&a);
    let mut hb = ByteHistogram::new();
    hb.write(&b);
    assert_eq!(ha.total(), hb.total());
    for v in 0..=255u8 {
        assert_eq!(ha.count(v), hb.count(v));
    }
    assert_eq!(ha.count(5), 3);
    assert_eq!(ha.count(9), 2);
}

#[test]
fn writes_accumulate_and_reset_clears() {
    let mut h = ByteHistogram::new();
    h.write(&[1, 2, 3]);
    h.write(&[3, 3]);
    assert_eq!(h.total(), 5);
    assert_eq!(h.count(3), 3);
    assert_eq!(h.count(1), 1);
    h.reset();
    assert_eq!(h.total(), 0);
    assert_eq!(h.count(3), 0);
    h.write(&[]);
    assert_eq!(h.total(), 0);
}

use pixify::embroidery::cells::{ceil_at, cell_at, round_at};

#[test]
fn a_half_rounds_up() {
    assert_eq!(round_at(0, 5, 4), 0);
    assert_eq!(round_at(1, 5, 4), 1);
    assert_eq!(round_at(2, 5, 4), 3);
    assert_eq!(round_at(3, 5, 4), 4);
    assert_eq!(round_at(4, 5, 4), 5);
    assert_eq!(round_at(1, 3, 2), 2);
    assert_eq!(round_at(1, 1, 3), 0);
    assert_eq!(round_at(2, 1, 3), 1);
    assert_eq!(round_at(50, 10, 50), 10);
}

#[test]
fn a_fraction_fills_from_the_next_pixel() {
    assert_eq!(ceil_at(0, 5, 4), 0);
    assert_eq!(ceil_at(1, 5, 4), 2);
    assert_eq!(ceil_at(2, 5, 4), 3);
    assert_eq!(ceil_at(3, 5, 4), 4);
    assert_eq!(ceil_at(4, 5, 4), 5);
    assert_eq!(ceil_at(3, 10, 10), 3);
}

#[test]
fn a_pixel_lies_in_one_cell() {
    let cells: Vec<u64> = (0..5).map(|p| cell_at(p, 5, 4)).collect();
    assert_eq!(cells, vec![0, 0, 1, 2, 3]);
    for p in 0..5u32 {
        let n = cell_at(p, 5, 4) as u32;
        assert!(ceil_at(n, 5, 4) <= p as u64 && (p as u64) < ceil_at(n + 1, 5, 4));
    }
    assert_eq!(cell_at(13, 10, 1), 1);
}

#[test]
fn the_largest_numbers_do_not_overflow() {
    assert_eq!(round_at(u32::MAX, u32::MAX, 1), (u32::MAX as u64) * (u32::MAX as u64));
    assert_eq!(ceil_at(u32::MAX, u32::MAX, 1), (u32::MAX as u64) * (u32::MAX as u64));
    assert_eq!(round_at(u32::MAX, u32::MAX, u32::MAX), u32::MAX as u64);
    assert_eq!(cell_at(u32::MAX, 1, u32::MAX), (u32::MAX as u64) * (u32::MAX as u64));
}

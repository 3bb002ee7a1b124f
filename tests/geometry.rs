use partition_resize::geometry::{Coordinates, ResizeOperation};

fn op(sector_size: u64, old: (u64, u64), new: (u64, u64)) -> ResizeOperation {
    ResizeOperation::new(
        sector_size,
        Coordinates::new(old.0, old.1),
        Coordinates::new(new.0, new.1),
    )
}

#[test]
fn coordinates_keep_their_bounds() {
    let c = Coordinates::new(34, 2082);
    assert_eq!(c.start, 34);
    assert_eq!(c.end, 2082);
    let r = op(4096, (1, 2), (3, 4));
    assert_eq!(r.sector_size, 4096);
    assert_eq!(r.old, Coordinates::new(1, 2));
    assert_eq!(r.new, Coordinates::new(3, 4));
}

#[test]
fn growing_in_place() {
    let r = op(512, (2048, 206848), (2048, 411648));
    assert!(r.is_growing());
    assert!(!r.is_shrinking());
    assert!(!r.is_moving());
    assert_eq!(r.relative_sectors(), 411648 - 206848);
}

#[test]
fn shrinking_in_place() {
    let r = op(512, (2048, 411648), (2048, 206848));
    assert!(r.is_shrinking());
    assert!(!r.is_growing());
    assert!(!r.is_moving());
    assert_eq!(r.relative_sectors(), -204800);
}

#[test]
fn translation_keeps_size() {
    for k in [1u64, 7, 2048, 1 << 40] {
        let r = op(512, (2048, 206848), (2048 + k, 206848 + k));
        assert_eq!(r.relative_sectors(), 0);
        assert!(r.is_moving());
        assert!(!r.is_growing());
        assert!(!r.is_shrinking());
    }
    let left = op(512, (4096, 8192), (1024, 5120));
    assert_eq!(left.relative_sectors(), 0);
    assert!(left.is_moving());
    let still = op(512, (4096, 8192), (4096, 8192));
    assert_eq!(still.relative_sectors(), 0);
    assert!(!still.is_moving());
}

#[test]
fn move_and_resize_together() {
    let r = op(512, (1000, 2000), (1500, 3000));
    assert!(r.is_moving());
    assert!(r.is_growing());
    assert_eq!(r.relative_sectors(), 500);
    let r = op(512, (1000, 2000), (500, 1200));
    assert!(r.is_moving());
    assert!(r.is_shrinking());
    assert_eq!(r.relative_sectors(), -300);
}

#[test]
fn absolute_units() {
    let r = op(512, (2048, 206848), (2048, 411648));
    assert_eq!(r.absolute_sectors(), 409600);
    assert_eq!(r.as_absolute_mebibyte(), 409600 * 512 / 1_048_576);
    assert_eq!(r.as_absolute_mebibyte(), 200);
    assert_eq!(r.as_absolute_megabyte(), 409600 * 512 / 1_000_000);
    assert_eq!(r.as_absolute_megabyte(), 209);
}

#[test]
fn relative_units() {
    let r = op(512, (2048, 206848), (2048, 411648));
    assert_eq!(r.as_relative_mebibyte(), 100);
    assert_eq!(r.as_relative_megabyte(), 104);
    let r = op(512, (2048, 411648), (2048, 206848));
    assert_eq!(r.as_relative_mebibyte(), -100);
    assert_eq!(r.as_relative_megabyte(), -104);
}

#[test]
fn relative_units_round_toward_zero() {
    // 3000 sectors of 512 bytes: 1 536 000 bytes.
    let r = op(512, (0, 10000), (0, 7000));
    assert_eq!(r.relative_sectors(), -3000);
    assert_eq!(r.as_relative_megabyte(), -1);
    assert_eq!(r.as_relative_mebibyte(), -1);
    assert_eq!(r.as_relative_megabyte(), (-3000i64 * 512) / 1_000_000);
    let r = op(512, (0, 10000), (0, 13000));
    assert_eq!(r.as_relative_megabyte(), 1);
    assert_eq!(r.as_relative_mebibyte(), 1);
    let r = op(512, (0, 10000), (0, 9999));
    assert_eq!(r.as_relative_megabyte(), 0);
}

#[test]
fn relative_units_at_the_signed_limit() {
    let r = op(2, (0, 1 << 62), (0, 0));
    assert_eq!(r.relative_sectors(), -(1i64 << 62));
    assert_eq!(r.as_relative_mebibyte(), i64::MIN / 1_048_576);
    assert_eq!(r.as_relative_megabyte(), i64::MIN / 1_000_000);
}

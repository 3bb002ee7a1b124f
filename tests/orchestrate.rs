use partition_resize::filesystem::{
    resize_tool, size_argument, FileSystemType, ResizeError, ResizeUnit,
};
use partition_resize::geometry::{Coordinates, ResizeOperation};
use partition_resize::orchestrate::{plan, FailureKind, Step, Target};
use partition_resize::relocation::OffsetCoordinates;

fn op(sector_size: u64, old: (u64, u64), new: (u64, u64)) -> ResizeOperation {
    ResizeOperation::new(
        sector_size,
        Coordinates::new(old.0, old.1),
        Coordinates::new(new.0, new.1),
    )
}

/// Carries out the steps in order and stops at the first that fails, the way
/// a caller does; returns the steps that were attempted.
fn run(steps: &[Step], fails: impl Fn(&Step) -> bool) -> Vec<Step> {
    let mut attempted = Vec::new();
    for step in steps {
        attempted.push(*step);
        if fails(step) {
            break;
        }
    }
    attempted
}

#[test]
fn grow_in_place_plan() {
    let r = op(512, (2048, 206848), (2048, 411648));
    let p = plan(3, Some(FileSystemType::Ext4), &r).unwrap();
    assert_eq!(p.tool.command, "resize2fs");
    assert!(p.tool.args.is_empty());
    assert_eq!(p.size, "200M");
    assert_eq!(
        p.steps,
        vec![
            Step::Delete(3),
            Step::Create { start: 2048, end: 411648 },
            Step::Check(Target::Recreated),
            Step::ResizeFileSystem(Target::Recreated),
        ]
    );
}

#[test]
fn failed_check_stops_before_resize() {
    let shrink = op(512, (2048, 411648), (2048, 206848));
    let p = plan(1, Some(FileSystemType::Ext4), &shrink).unwrap();
    assert_eq!(p.size, "100M");
    assert_eq!(
        p.steps,
        vec![Step::Check(Target::Original), Step::ResizeFileSystem(Target::Original)]
    );
    let attempted = run(&p.steps, |s| matches!(s, Step::Check(_)));
    assert!(!attempted.iter().any(|s| matches!(s, Step::ResizeFileSystem(_))));

    let grow = op(512, (2048, 206848), (2048, 411648));
    let p = plan(1, Some(FileSystemType::Ext3), &grow).unwrap();
    let attempted = run(&p.steps, |s| matches!(s, Step::Check(_)));
    assert!(!attempted.iter().any(|s| matches!(s, Step::ResizeFileSystem(_))));
}

#[test]
fn pure_right_move_plan() {
    let r = op(512, (2048, 206848), (4096, 208896));
    assert!(r.is_moving());
    assert_eq!(r.relative_sectors(), 0);
    let p = plan(2, Some(FileSystemType::Ext4), &r).unwrap();
    assert_eq!(p.steps.len(), 3);
    assert_eq!(p.steps[0], Step::Delete(2));
    match p.steps[1] {
        Step::Relocate(o) => {
            assert_eq!(o.offset, 2048);
            assert_eq!(o.inner, OffsetCoordinates { skip: 2048, length: 2048 });
            assert_eq!(o.overlap, Some(OffsetCoordinates { skip: 4096, length: 202752 }));
        }
        other => panic!("expected a relocation, got {:?}", other),
    }
    assert_eq!(p.steps[2], Step::Create { start: 4096, end: 208896 });
}

#[test]
fn shrink_then_move_plan() {
    let r = op(512, (2048, 411648), (4096, 208896));
    let p = plan(5, Some(FileSystemType::Ext2), &r).unwrap();
    assert_eq!(p.size, "100M");
    assert_eq!(p.steps[0], Step::Check(Target::Original));
    assert_eq!(p.steps[1], Step::ResizeFileSystem(Target::Original));
    assert_eq!(p.steps[2], Step::Delete(5));
    match p.steps[3] {
        Step::Relocate(o) => {
            assert_eq!(o.offset, 2048);
            assert_eq!(o.inner, OffsetCoordinates { skip: 2048, length: 2048 });
            assert_eq!(o.overlap, Some(OffsetCoordinates { skip: 4096, length: 202752 }));
        }
        other => panic!("expected a relocation, got {:?}", other),
    }
    assert_eq!(p.steps[4], Step::Create { start: 4096, end: 208896 });
    assert_eq!(p.steps.len(), 5);
}

#[test]
fn grow_and_move_deletes_once() {
    let r = op(512, (2048, 206848), (4096, 411648));
    let p = plan(4, Some(FileSystemType::Ext4), &r).unwrap();
    let deletes = p.steps.iter().filter(|s| matches!(s, Step::Delete(_))).count();
    assert_eq!(deletes, 1);
    assert_eq!(p.steps.len(), 6);
    assert_eq!(p.steps[0], Step::Delete(4));
    assert_eq!(p.steps[3], Step::ResizeFileSystem(Target::Recreated));
    assert!(matches!(p.steps[4], Step::Relocate(_)));
    assert_eq!(p.steps[5], Step::Create { start: 4096, end: 411648 });
}

#[test]
fn unchanged_partition_has_no_steps() {
    let r = op(512, (2048, 206848), (2048, 206848));
    let p = plan(1, Some(FileSystemType::Ext4), &r).unwrap();
    assert!(p.steps.is_empty());
}

#[test]
fn unsupported_filesystems_are_reported() {
    let r = op(512, (2048, 206848), (2048, 411648));
    for fs in [
        FileSystemType::Btrfs,
        FileSystemType::Exfat,
        FileSystemType::F2fs,
        FileSystemType::Fat16,
        FileSystemType::Fat32,
        FileSystemType::Ntfs,
        FileSystemType::Xfs,
    ] {
        assert_eq!(
            plan(1, Some(fs), &r).err(),
            Some(ResizeError::UnsupportedFileSystem(Some(fs)))
        );
    }
    assert_eq!(plan(1, None, &r).err(), Some(ResizeError::UnsupportedFileSystem(None)));
}

#[test]
fn ext_family_uses_resize2fs_in_mebibytes() {
    for fs in [FileSystemType::Ext2, FileSystemType::Ext3, FileSystemType::Ext4] {
        let tool = resize_tool(Some(fs)).unwrap();
        assert_eq!(tool.command, "resize2fs");
        assert_eq!(tool.unit, ResizeUnit::AbsoluteMebibyte);
    }
}

#[test]
fn size_arguments_in_every_unit() {
    let grow = op(512, (2048, 206848), (2048, 411648));
    assert_eq!(size_argument(ResizeUnit::AbsoluteMebibyte, &grow), "200M");
    assert_eq!(size_argument(ResizeUnit::AbsoluteMegabyte, &grow), "209M");
    assert_eq!(size_argument(ResizeUnit::AbsoluteSectors, &grow), "409600");
    assert_eq!(size_argument(ResizeUnit::RelativeMebibyte, &grow), "100M");
    assert_eq!(size_argument(ResizeUnit::RelativeMegabyte, &grow), "104M");
    assert_eq!(size_argument(ResizeUnit::RelativeSectors, &grow), "204800");
    let shrink = op(512, (2048, 411648), (2048, 206848));
    assert_eq!(size_argument(ResizeUnit::RelativeMebibyte, &shrink), "-100M");
    assert_eq!(size_argument(ResizeUnit::RelativeSectors, &shrink), "-204800");
    let empty = op(512, (2048, 411648), (2048, 2048));
    assert_eq!(size_argument(ResizeUnit::AbsoluteMebibyte, &empty), "0M");
    assert_eq!(size_argument(ResizeUnit::AbsoluteSectors, &empty), "0");
    let lowest = op(1, (0, 1 << 63), (0, 0));
    assert_eq!(size_argument(ResizeUnit::RelativeSectors, &lowest), "-9223372036854775808");
    let lowest_bytes = op(2, (0, 1 << 62), (0, 0));
    assert_eq!(size_argument(ResizeUnit::RelativeMebibyte, &lowest_bytes), "-8796093022208M");
    let huge = op(1, (0, 0), (0, u64::MAX));
    assert_eq!(size_argument(ResizeUnit::AbsoluteSectors, &huge), "18446744073709551615");
}

#[test]
fn failures_are_classified() {
    assert_eq!(Step::Check(Target::Original).failure(), FailureKind::Resize);
    assert_eq!(Step::ResizeFileSystem(Target::Recreated).failure(), FailureKind::Resize);
    assert_eq!(Step::Delete(1).failure(), FailureKind::Table);
    assert_eq!(Step::Create { start: 1, end: 2 }.failure(), FailureKind::Table);
    let plan = op(512, (10, 20), (12, 22)).offset();
    assert_eq!(Step::Relocate(plan).failure(), FailureKind::Move);
}

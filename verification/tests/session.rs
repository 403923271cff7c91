use gpt::{GptConfig, GptDisk, GptError};
use gpt::disk::LogicalBlockSize;
use gpt::header::rebuild;
use gpt::partition::Partition;

const TEN_MIB: u64 = 10 * 1024 * 1024;

fn sample_partition(type_guid: u128, first: u64, last: u64) -> Partition {
    Partition {
        part_type_guid: type_guid,
        part_guid: 0x42,
        first_lba: first,
        last_lba: last,
        flags: 0,
        name: vec![0u16; 36],
    }
}

#[test]
fn config_builder() {
    let cfg = GptConfig::new()
        .writable(true)
        .initialized(false)
        .logical_block_size(LogicalBlockSize::Lb4096);
    assert_eq!(cfg.writable, true);
    assert_eq!(cfg.initialized, false);
    assert_eq!(cfg.lb_size, LogicalBlockSize::Lb4096);
    assert_eq!(GptConfig::new(), GptConfig::default());
    assert_eq!(GptConfig::new().lb_size, LogicalBlockSize::Lb512);
    assert_eq!(GptConfig::new().writable, false);
    assert_eq!(GptConfig::new().initialized, true);
}

#[test]
fn rebuild_headers_point_at_each_other() {
    let parts = vec![sample_partition(0xAB, 40, 100)];
    let (h1, h2) = rebuild(0x77, &parts, TEN_MIB, LogicalBlockSize::Lb512).unwrap();
    assert_eq!(h1.alternate_lba, h2.my_lba);
    assert_eq!(h2.alternate_lba, h1.my_lba);
    assert_eq!(h1.my_lba, 1);
    assert_eq!(h2.my_lba, 20479);
    assert_eq!(h1.disk_guid, 0x77);
    assert_eq!(h2.disk_guid, 0x77);
}

#[test]
fn rebuild_rejects_tiny_device() {
    let parts: Vec<Partition> = Vec::new();
    assert_eq!(
        rebuild(0x77, &parts, 1024, LogicalBlockSize::Lb512),
        Err(GptError::IoError)
    );
}

#[test]
fn uninitialized_session_has_no_state() {
    // a zero-filled 10 MiB image opened without assuming initialization:
    // nothing is read, so the session carries no header or partition state
    let cfg = GptConfig::new().writable(false).initialized(false);
    let disk = GptDisk::new_uninitialized(cfg, 0x99, TEN_MIB);
    assert!(disk.primary_header().is_none());
    assert!(disk.backup_header().is_none());
    assert!(disk.partitions().is_empty());
    assert_eq!(disk.guid(), 0x99);
    assert_eq!(disk.logical_block_size(), LogicalBlockSize::Lb512);
    assert_eq!(disk.write().err(), Some(GptError::NotWritable));
}

#[test]
fn write_requires_initialized_state() {
    let cfg = GptConfig::new().writable(true).initialized(false);
    let disk = GptDisk::new_uninitialized(cfg, 0x99, TEN_MIB);
    assert_eq!(disk.write().err(), Some(GptError::NotInitialized));
}

#[test]
fn update_partitions_builds_consistent_headers() {
    let cfg = GptConfig::new().writable(true).initialized(false);
    let mut disk = GptDisk::new_uninitialized(cfg, 0x99, TEN_MIB);
    let parts = vec![sample_partition(0xAB, 40, 100), sample_partition(0xCD, 101, 200)];
    disk.update_partitions(parts.clone()).unwrap();
    let h1 = *disk.primary_header().unwrap();
    let h2 = *disk.backup_header().unwrap();
    assert_eq!(h1.alternate_lba, h2.my_lba);
    assert_eq!(h2.alternate_lba, h1.my_lba);
    assert_eq!(h1.disk_guid, 0x99);
    assert_eq!(disk.partitions(), &parts);
}

#[test]
fn update_partitions_rejects_out_of_range() {
    let cfg = GptConfig::new().writable(true).initialized(false);
    let mut disk = GptDisk::new_uninitialized(cfg, 0x99, TEN_MIB);
    let parts = vec![sample_partition(0xAB, 40, 999_999)];
    assert_eq!(
        disk.update_partitions(parts),
        Err(GptError::PartitionTableCorrupt)
    );
    assert!(disk.primary_header().is_none());
}

#[test]
fn update_guid_replaces_identifier() {
    let cfg = GptConfig::new().writable(true).initialized(false);
    let mut disk = GptDisk::new_uninitialized(cfg, 0x99, TEN_MIB);
    disk.update_guid(Some(0xABCDEF)).unwrap();
    assert_eq!(disk.guid(), 0xABCDEF);
    disk.update_guid(None).unwrap();
}

#[test]
fn write_emits_backup_then_primary() {
    let cfg = GptConfig::new().writable(true).initialized(false);
    let mut disk = GptDisk::new_uninitialized(cfg, 0x99, TEN_MIB);
    let parts = vec![sample_partition(0xAB, 40, 100)];
    disk.update_partitions(parts).unwrap();
    let (disk, ops) = disk.write().unwrap();
    assert_eq!(ops.len(), 2);
    // backup sector first, primary sector (LBA 1) last
    assert_eq!(ops[0].offset, 20479 * 512);
    assert_eq!(ops[1].offset, 512);
    assert_eq!(ops[0].bytes.len(), 512);
    assert_eq!(ops[1].bytes.len(), 512);
    let h1 = *disk.primary_header().unwrap();
    let h2 = *disk.backup_header().unwrap();
    let dec1 = gpt::header::Header::decode(&ops[1].bytes, 1, LogicalBlockSize::Lb512).unwrap();
    let dec2 = gpt::header::Header::decode(&ops[0].bytes, 20479, LogicalBlockSize::Lb512).unwrap();
    assert_eq!(dec1, h1);
    assert_eq!(dec2, h2);
}

#[test]
fn session_from_parts_keeps_state() {
    let parts = vec![sample_partition(0xAB, 40, 100)];
    let (h1, h2) = rebuild(0x55, &parts, TEN_MIB, LogicalBlockSize::Lb512).unwrap();
    let cfg = GptConfig::new();
    let disk = GptDisk::from_parts(cfg, TEN_MIB, h1, h2, parts.clone());
    assert_eq!(disk.guid(), 0x55);
    assert_eq!(*disk.primary_header().unwrap(), h1);
    assert_eq!(*disk.backup_header().unwrap(), h2);
    assert_eq!(disk.partitions(), &parts);
}

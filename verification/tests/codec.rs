use gpt::GptError;
use gpt::crc32::crc32;
use gpt::disk::LogicalBlockSize;
use gpt::header::{Header, find_backup_lba};
use gpt::mbr::ProtectiveMbr;
use gpt::partition::{Partition, decode_array, encode_array};

fn sample_partition(type_guid: u128, guid: u128, first: u64, last: u64) -> Partition {
    let mut name: Vec<u16> = vec![0u16; 36];
    name[0] = 'd' as u16;
    name[1] = 'a' as u16;
    name[2] = 't' as u16;
    name[3] = 'a' as u16;
    Partition {
        part_type_guid: type_guid,
        part_guid: guid,
        first_lba: first,
        last_lba: last,
        flags: 0,
        name,
    }
}

#[test]
fn crc32_known_vector() {
    assert_eq!(crc32(b"123456789"), 0xCBF43926);
}

#[test]
fn crc32_empty_is_zero() {
    assert_eq!(crc32(&[]), 0);
}

#[test]
fn crc32_detects_corruption() {
    let a = crc32(&[1, 2, 3, 4]);
    let b = crc32(&[1, 2, 7, 4]);
    assert_ne!(a, b);
}

#[test]
fn header_round_trip() {
    let parts = vec![sample_partition(0xAB, 0xCD, 40, 100)];
    let h = Header::compute_new(true, &parts, 0x1122334455667788, 20479, LogicalBlockSize::Lb512)
        .unwrap();
    let enc = h.encode(LogicalBlockSize::Lb512);
    assert_eq!(enc.len(), 512);
    let dec = Header::decode(&enc, 1, LogicalBlockSize::Lb512).unwrap();
    assert_eq!(dec, h);
}

#[test]
fn header_round_trip_4096() {
    let parts: Vec<Partition> = Vec::new();
    let h = Header::compute_new(false, &parts, 7, 2559, LogicalBlockSize::Lb4096).unwrap();
    let enc = h.encode(LogicalBlockSize::Lb4096);
    assert_eq!(enc.len(), 4096);
    let dec = Header::decode(&enc, 2559, LogicalBlockSize::Lb4096).unwrap();
    assert_eq!(dec, h);
}

#[test]
fn header_decode_bad_signature() {
    let sector = vec![0u8; 512];
    assert_eq!(
        Header::decode(&sector, 1, LogicalBlockSize::Lb512),
        Err(GptError::InvalidSignature)
    );
}

#[test]
fn header_decode_bad_declared_size() {
    let parts: Vec<Partition> = Vec::new();
    let h = Header::compute_new(true, &parts, 1, 20479, LogicalBlockSize::Lb512).unwrap();
    let mut enc = h.encode(LogicalBlockSize::Lb512);
    // declared header size (bytes 12..16) below the fixed minimum of 92
    enc[12] = 16;
    enc[13] = 0;
    assert_eq!(
        Header::decode(&enc, 1, LogicalBlockSize::Lb512),
        Err(GptError::PartitionTableCorrupt)
    );
}

#[test]
fn header_decode_wrong_location() {
    let parts: Vec<Partition> = Vec::new();
    let h = Header::compute_new(true, &parts, 1, 20479, LogicalBlockSize::Lb512).unwrap();
    let enc = h.encode(LogicalBlockSize::Lb512);
    assert_eq!(
        Header::decode(&enc, 5, LogicalBlockSize::Lb512),
        Err(GptError::PartitionTableCorrupt)
    );
}

#[test]
fn header_bit_flip_fails_checksum() {
    let parts = vec![sample_partition(0xAB, 0xCD, 40, 100)];
    let h = Header::compute_new(true, &parts, 99, 20479, LogicalBlockSize::Lb512).unwrap();
    let enc = h.encode(LogicalBlockSize::Lb512);
    // every bit from the checksum field to the end of the declared structure
    for bit in 128..736 {
        let mut corr = enc.clone();
        corr[bit / 8] ^= 1u8 << (bit % 8);
        assert_eq!(
            Header::decode(&corr, 1, LogicalBlockSize::Lb512),
            Err(GptError::ChecksumMismatch)
        );
    }
}

#[test]
fn header_bit_flip_in_magic_fails_signature() {
    let parts: Vec<Partition> = Vec::new();
    let h = Header::compute_new(true, &parts, 99, 20479, LogicalBlockSize::Lb512).unwrap();
    let mut enc = h.encode(LogicalBlockSize::Lb512);
    enc[0] ^= 1;
    assert_eq!(
        Header::decode(&enc, 1, LogicalBlockSize::Lb512),
        Err(GptError::InvalidSignature)
    );
}

#[test]
fn compute_new_geometry() {
    let parts: Vec<Partition> = Vec::new();
    let guid = 0xDEADBEEF;
    let h1 = Header::compute_new(true, &parts, guid, 20479, LogicalBlockSize::Lb512).unwrap();
    let h2 = Header::compute_new(false, &parts, guid, 20479, LogicalBlockSize::Lb512).unwrap();
    assert_eq!(h1.my_lba, 1);
    assert_eq!(h1.alternate_lba, 20479);
    assert_eq!(h1.part_start, 2);
    assert_eq!(h1.first_usable, 34);
    assert_eq!(h1.last_usable, 20446);
    assert_eq!(h1.num_parts, 128);
    assert_eq!(h1.part_size, 128);
    assert_eq!(h1.disk_guid, guid);
    assert_eq!(h2.my_lba, 20479);
    assert_eq!(h2.alternate_lba, 1);
    assert_eq!(h2.part_start, 20479 - 32);
    assert_eq!(h2.first_usable, h1.first_usable);
    assert_eq!(h2.last_usable, h1.last_usable);
    assert_eq!(h2.crc32_parts, h1.crc32_parts);
    let raw = encode_array(&parts, 128, 128).unwrap();
    assert_eq!(h1.crc32_parts, crc32(&raw));
}

#[test]
fn compute_new_rejects_partition_outside_usable_range() {
    let parts = vec![sample_partition(0xAB, 0xCD, 2, 100)];
    assert_eq!(
        Header::compute_new(true, &parts, 1, 20479, LogicalBlockSize::Lb512),
        Err(GptError::PartitionTableCorrupt)
    );
}

#[test]
fn compute_new_rejects_tiny_disk() {
    let parts: Vec<Partition> = Vec::new();
    assert_eq!(
        Header::compute_new(true, &parts, 1, 66, LogicalBlockSize::Lb512),
        Err(GptError::PartitionTableCorrupt)
    );
}

#[test]
fn partition_array_round_trip() {
    let p1 = sample_partition(0xAB, 0x01, 40, 100);
    let zero_type = sample_partition(0, 0x02, 50, 60);
    let p2 = sample_partition(0xCD, 0x03, 101, 200);
    let parts = vec![p1.clone(), zero_type, p2.clone()];
    let raw = encode_array(&parts, 128, 128).unwrap();
    assert_eq!(raw.len(), 128 * 128);
    let mut h = Header::compute_new(true, &parts, 1, 20479, LogicalBlockSize::Lb512).unwrap();
    h.crc32_parts = crc32(&raw);
    let decoded = decode_array(&raw, &h).unwrap();
    // the zero-type slot is removed, order is kept
    assert_eq!(decoded, vec![p1, p2]);
}

#[test]
fn partition_array_round_trip_empty() {
    let parts: Vec<Partition> = Vec::new();
    let raw = encode_array(&parts, 128, 128).unwrap();
    assert_eq!(raw.len(), 16384);
    assert!(raw.iter().all(|b| *b == 0));
    let h = Header::compute_new(true, &parts, 1, 20479, LogicalBlockSize::Lb512).unwrap();
    let decoded = decode_array(&raw, &h).unwrap();
    assert_eq!(decoded, Vec::<Partition>::new());
}

#[test]
fn partition_array_checksum_mismatch() {
    let parts = vec![sample_partition(0xAB, 0x01, 40, 100)];
    let mut raw = encode_array(&parts, 128, 128).unwrap();
    let h = Header::compute_new(true, &parts, 1, 20479, LogicalBlockSize::Lb512).unwrap();
    raw[3] ^= 0x40;
    assert_eq!(decode_array(&raw, &h), Err(GptError::ChecksumMismatch));
}

#[test]
fn encode_array_rejects_bad_entry_size() {
    let parts: Vec<Partition> = Vec::new();
    assert_eq!(encode_array(&parts, 128, 64), Err(GptError::PartitionTableCorrupt));
}

#[test]
fn encode_array_rejects_too_many_partitions() {
    let mut parts: Vec<Partition> = Vec::new();
    for i in 0..129 {
        parts.push(sample_partition(0xAB, i as u128, 40, 100));
    }
    assert_eq!(encode_array(&parts, 128, 128), Err(GptError::PartitionTableCorrupt));
}

#[test]
fn encode_array_rejects_bad_name_length() {
    let mut p = sample_partition(0xAB, 0x01, 40, 100);
    p.name = vec![0u16; 10];
    let parts = vec![p];
    assert_eq!(encode_array(&parts, 128, 128), Err(GptError::PartitionTableCorrupt));
}

#[test]
fn find_backup_lba_small_image() {
    // a 512-byte-block file of exactly 20480 bytes: last sector is LBA 39
    assert_eq!(find_backup_lba(20480, LogicalBlockSize::Lb512), Ok(39));
}

#[test]
fn find_backup_lba_10_mib() {
    assert_eq!(find_backup_lba(10 * 1024 * 1024, LogicalBlockSize::Lb512), Ok(20479));
}

#[test]
fn find_backup_lba_too_small() {
    assert_eq!(
        find_backup_lba(3 * 512, LogicalBlockSize::Lb512),
        Err(GptError::IoError)
    );
}

#[test]
fn protective_record_bad_signature() {
    let sector = vec![0u8; 512];
    assert_eq!(ProtectiveMbr::decode(&sector), Err(GptError::InvalidSignature));
    let mut wrong = vec![0u8; 512];
    wrong[510] = 0x55;
    wrong[511] = 0xAB;
    assert_eq!(ProtectiveMbr::decode(&wrong), Err(GptError::InvalidSignature));
}

#[test]
fn protective_record_round_trip() {
    let m = ProtectiveMbr::new_protective(20480 / 512);
    assert!(m.has_protective_entry());
    let enc = m.encode();
    assert_eq!(enc.len(), 512);
    assert_eq!(enc[510], 0x55);
    assert_eq!(enc[511], 0xAA);
    // the placeholder record: protective type 0xEE, start LBA 1, 39 sectors
    assert_eq!(enc[446 + 4], 0xEE);
    assert_eq!(&enc[446 + 8..446 + 12], &[1, 0, 0, 0]);
    assert_eq!(&enc[446 + 12..446 + 16], &[39, 0, 0, 0]);
    let dec = ProtectiveMbr::decode(&enc).unwrap();
    assert_eq!(dec, m);
}

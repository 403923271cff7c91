//! A pure-Rust library to work with GPT (GUID Partition Table) structures.
//!
//! The crate decodes and encodes the legacy protective boot-sector record,
//! the GPT header, and the partition-entry array; validates their CRC-32
//! checksums; and derives a mutually consistent primary/backup header pair
//! from a partition list and a disk identifier. All offsets are computed
//! from a configurable logical block size.

use vstd::prelude::*;

pub mod crc32;
pub mod disk;
pub mod header;
pub mod mbr;
pub mod partition;

verus! {

/// A sequence of `n` zero bytes.
pub open spec fn spec_zeros(n: nat) -> Seq<u8> {
    Seq::new(n, |i: int| 0u8)
}

/// Appends `n` zero bytes to `v`.
pub fn push_zeros(v: &mut Vec<u8>, n: usize)
    requires
        old(v)@.len() + n <= usize::MAX,
    ensures
        final(v)@ == old(v)@ + spec_zeros(n as nat),
{
    let mut i: usize = 0;
    while i < n
        invariant
            0 <= i <= n,
            v@ =~= old(v)@ + spec_zeros(i as nat),
        decreases n - i,
    {
        v.push(0);
        proof {
            assert(v@ =~= old(v)@ + spec_zeros((i + 1) as nat));
        }
        i = i + 1;
    }
    proof {
        assert(v@ =~= old(v)@ + spec_zeros(n as nat));
    }
}

/// Errors reported by the codec and reconciliation operations.
#[derive(Debug, Clone, Copy, PartialEq, Eq, Structural)]
pub enum GptError {
    /// The backing device could not serve the request (too small, or an
    /// underlying read/write/seek/flush failed).
    IoError,
    /// The protective-record boot signature or the header magic did not match.
    InvalidSignature,
    /// A stored CRC-32 did not match the checksum recomputed over the bytes.
    ChecksumMismatch,
    /// Structurally invalid sizes, counts, or LBA ranges.
    PartitionTableCorrupt,
    /// A persist was attempted on a session not opened for writing.
    NotWritable,
    /// A persist was attempted before any header/partition state existed.
    NotInitialized,
}

/// Configuration options to open a GPT disk session.
#[derive(Debug, Clone, Copy, PartialEq, Eq, Structural)]
pub struct GptConfig {
    /// Logical block size of the device.
    pub lb_size: disk::LogicalBlockSize,
    /// Whether the session may persist changes.
    pub writable: bool,
    /// Whether to expect and parse an initialized GPT disk on open.
    pub initialized: bool,
}

impl GptConfig {
    /// Creates the default configuration: 512-byte sectors, read-only,
    /// expecting an initialized disk.
    pub fn new() -> (c: Self)
        ensures
            c.lb_size == disk::LogicalBlockSize::Lb512,
            c.writable == false,
            c.initialized == true,
    {
        GptConfig {
            lb_size: disk::LogicalBlockSize::Lb512,
            writable: false,
            initialized: true,
        }
    }

    /// Whether to open the GPT partition table in writable mode.
    pub fn writable(self, writable: bool) -> (c: Self)
        ensures
            c.writable == writable,
            c.lb_size == self.lb_size,
            c.initialized == self.initialized,
    {
        GptConfig { writable, ..self }
    }

    /// Whether to assume an initialized GPT disk and read its partition
    /// table on open.
    pub fn initialized(self, initialized: bool) -> (c: Self)
        ensures
            c.initialized == initialized,
            c.lb_size == self.lb_size,
            c.writable == self.writable,
    {
        GptConfig { initialized, ..self }
    }

    /// Size of logical blocks (sectors) for this disk.
    pub fn logical_block_size(self, lb_size: disk::LogicalBlockSize) -> (c: Self)
        ensures
            c.lb_size == lb_size,
            c.writable == self.writable,
            c.initialized == self.initialized,
    {
        GptConfig { lb_size, ..self }
    }
}

impl Default for GptConfig {
    /// The default configuration: 512-byte sectors, read-only, expecting
    /// an initialized disk.
    fn default() -> (c: Self)
        ensures
            c.lb_size == disk::LogicalBlockSize::Lb512,
            c.writable == false,
            c.initialized == true,
    {
        GptConfig::new()
    }
}

/// Relies on `uuid::Uuid::new_v4` for a fresh random 128-bit identifier;
/// nothing is promised of the value.
#[verifier::external_body]
fn generate_guid() -> u128 {
    uuid::Uuid::new_v4().as_u128()
}

/// One sector write that persistence asks of the backing device: the byte
/// offset to seek to and the bytes to put there.
pub struct SectorWrite {
    /// Byte offset from the start of the device.
    pub offset: u64,
    /// The sector contents.
    pub bytes: Vec<u8>,
}

/// An in-memory GPT disk session: configuration, device size, disk
/// identifier, the optional primary and backup headers, and the ordered
/// logical partition list. The three state pieces are only ever replaced
/// wholesale together, by rebuilding both headers from a new partition
/// list.
pub struct GptDisk {
    /// The configuration the session was opened with.
    pub config: GptConfig,
    /// 128-bit disk identifier.
    pub guid: u128,
    /// Length of the backing device or image, in bytes.
    pub disk_len: u64,
    /// The primary header, if any state exists.
    pub primary_header: Option<header::Header>,
    /// The backup header, if any state exists.
    pub backup_header: Option<header::Header>,
    /// The ordered logical partition list.
    pub partitions: Vec<partition::Partition>,
}

impl GptDisk {
    /// A session over an uninitialized disk: no header or partition state.
    pub fn new_uninitialized(config: GptConfig, guid: u128, disk_len: u64) -> (d: GptDisk)
        ensures
            d.config == config,
            d.guid == guid,
            d.disk_len == disk_len,
            d.primary_header is None,
            d.backup_header is None,
            d.partitions@.len() == 0,
    {
        GptDisk {
            config,
            guid,
            disk_len,
            primary_header: None,
            backup_header: None,
            partitions: Vec::new(),
        }
    }

    /// A session assembled from decoded on-disk state: both headers and
    /// the logical partition list. The disk identifier is the primary
    /// header's.
    pub fn from_parts(
        config: GptConfig,
        disk_len: u64,
        primary: header::Header,
        backup: header::Header,
        partitions: Vec<partition::Partition>,
    ) -> (d: GptDisk)
        ensures
            d.config == config,
            d.guid == primary.disk_guid,
            d.disk_len == disk_len,
            d.primary_header == Some(primary),
            d.backup_header == Some(backup),
            d.partitions == partitions,
    {
        GptDisk {
            config,
            guid: primary.disk_guid,
            disk_len,
            primary_header: Some(primary),
            backup_header: Some(backup),
            partitions,
        }
    }

    /// Retrieve primary header, if any.
    pub fn primary_header(&self) -> (r: Option<&header::Header>)
        ensures
            match r {
                Some(h) => self.primary_header == Some(*h),
                None => self.primary_header is None,
            },
    {
        match &self.primary_header {
            Some(h) => Some(h),
            None => None,
        }
    }

    /// Retrieve backup header, if any.
    pub fn backup_header(&self) -> (r: Option<&header::Header>)
        ensures
            match r {
                Some(h) => self.backup_header == Some(*h),
                None => self.backup_header is None,
            },
    {
        match &self.backup_header {
            Some(h) => Some(h),
            None => None,
        }
    }

    /// Retrieve partition entries.
    pub fn partitions(&self) -> (r: &Vec<partition::Partition>)
        ensures
            r == self.partitions,
    {
        &self.partitions
    }

    /// Retrieve the disk identifier.
    pub fn guid(&self) -> (r: u128)
        ensures
            r == self.guid,
    {
        self.guid
    }

    /// Retrieve disk logical block size.
    pub fn logical_block_size(&self) -> (r: disk::LogicalBlockSize)
        ensures
            r == self.config.lb_size,
    {
        self.config.lb_size
    }

    /// Update the disk identifier. When none is given a fresh random one
    /// is drawn. No changes reach the disk until `write` is called.
    pub fn update_guid(&mut self, guid: Option<u128>) -> (r: Result<(), GptError>)
        ensures
            r is Ok,
            guid matches Some(g) ==> final(self).guid == g,
            final(self).config == old(self).config,
            final(self).disk_len == old(self).disk_len,
            final(self).primary_header == old(self).primary_header,
            final(self).backup_header == old(self).backup_header,
            final(self).partitions == old(self).partitions,
    {
        let g: u128 = match guid {
            Some(g) => g,
            None => generate_guid(),
        };
        self.guid = g;
        Ok(())
    }

    /// Replace the partition table: derives a fresh, mutually consistent
    /// primary/backup header pair from the new list and the current disk
    /// identifier, and marks the session initialized. On failure the
    /// session is unchanged. No changes reach the disk until `write` is
    /// called.
    pub fn update_partitions(&mut self, pp: Vec<partition::Partition>) -> (r: Result<
        (),
        GptError,
    >)
        ensures
            ({
                let lb = old(self).config.lb_size;
                let bak = (header::spec_total_sectors(old(self).disk_len, lb) - 1) as u64;
                match r {
                    Ok(_) => {
                        &&& header::spec_total_sectors(old(self).disk_len, lb) >= 4
                        &&& header::spec_compute_new_ok(partition::views(pp@), bak, lb)
                        &&& final(self).primary_header == Some(
                            header::with_crc(
                                header::spec_new_geometry(
                                    true,
                                    old(self).guid,
                                    bak,
                                    lb,
                                    header::spec_parts_crc(partition::views(pp@)),
                                ),
                            ),
                        )
                        &&& final(self).backup_header == Some(
                            header::with_crc(
                                header::spec_new_geometry(
                                    false,
                                    old(self).guid,
                                    bak,
                                    lb,
                                    header::spec_parts_crc(partition::views(pp@)),
                                ),
                            ),
                        )
                        &&& final(self).primary_header->Some_0.alternate_lba
                            == final(self).backup_header->Some_0.my_lba
                        &&& final(self).backup_header->Some_0.alternate_lba
                            == final(self).primary_header->Some_0.my_lba
                        &&& final(self).partitions == pp
                        &&& final(self).config.initialized == true
                        &&& final(self).config.writable == old(self).config.writable
                        &&& final(self).config.lb_size == lb
                        &&& final(self).guid == old(self).guid
                        &&& final(self).disk_len == old(self).disk_len
                    },
                    Err(GptError::IoError) => {
                        &&& header::spec_total_sectors(old(self).disk_len, lb) < 4
                        &&& *final(self) == *old(self)
                    },
                    Err(GptError::PartitionTableCorrupt) => {
                        &&& header::spec_total_sectors(old(self).disk_len, lb) >= 4
                        &&& !header::spec_compute_new_ok(partition::views(pp@), bak, lb)
                        &&& *final(self) == *old(self)
                    },
                    Err(_) => false,
                }
            }),
    {
        let pair = match header::rebuild(self.guid, &pp, self.disk_len, self.config.lb_size) {
            Ok(p) => p,
            Err(e) => {
                return Err(e);
            },
        };
        self.primary_header = Some(pair.0);
        self.backup_header = Some(pair.1);
        self.partitions = pp;
        self.config.initialized = true;
        Ok(())
    }

    /// Persist the session state: checks that the session is writable and
    /// initialized, rebuilds both headers from the current partition list,
    /// and hands back the updated session together with the sector writes
    /// to perform, backup header first and primary header second. The
    /// primary sector — the one readers trust first — is touched last, so
    /// an interruption between the two writes leaves a disk that still
    /// carries one valid header.
    pub fn write(self) -> (r: Result<(GptDisk, Vec<SectorWrite>), GptError>)
        ensures
            ({
                let lb = self.config.lb_size;
                let bs = lb.spec_bytes() as int;
                let bak = (header::spec_total_sectors(self.disk_len, lb) - 1) as u64;
                let crc = header::spec_parts_crc(partition::views(self.partitions@));
                match r {
                    Ok(pair) => {
                        let h1 = header::with_crc(
                            header::spec_new_geometry(true, self.guid, bak, lb, crc),
                        );
                        let h2 = header::with_crc(
                            header::spec_new_geometry(false, self.guid, bak, lb, crc),
                        );
                        &&& self.config.writable
                        &&& self.config.initialized
                        &&& header::spec_total_sectors(self.disk_len, lb) >= 4
                        &&& header::spec_compute_new_ok(
                            partition::views(self.partitions@),
                            bak,
                            lb,
                        )
                        &&& pair.1@.len() == 2
                        &&& pair.1@[0].offset == bak as int * bs
                        &&& pair.1@[0].bytes@ == header::spec_encode_header(h2, bs)
                        &&& pair.1@[1].offset == bs
                        &&& pair.1@[1].bytes@ == header::spec_encode_header(h1, bs)
                        &&& pair.0.primary_header == Some(h1)
                        &&& pair.0.backup_header == Some(h2)
                        &&& pair.0.partitions == self.partitions
                        &&& pair.0.guid == self.guid
                        &&& pair.0.config == self.config
                        &&& pair.0.disk_len == self.disk_len
                    },
                    Err(GptError::NotWritable) => !self.config.writable,
                    Err(GptError::NotInitialized) => self.config.writable
                        && !self.config.initialized,
                    Err(GptError::IoError) => {
                        &&& self.config.writable
                        &&& self.config.initialized
                        &&& header::spec_total_sectors(self.disk_len, lb) < 4
                    },
                    Err(GptError::PartitionTableCorrupt) => {
                        &&& self.config.writable
                        &&& self.config.initialized
                        &&& header::spec_total_sectors(self.disk_len, lb) >= 4
                        &&& !header::spec_compute_new_ok(
                            partition::views(self.partitions@),
                            bak,
                            lb,
                        )
                    },
                    Err(_) => false,
                }
            }),
    {
        if !self.config.writable {
            return Err(GptError::NotWritable);
        }
        if !self.config.initialized {
            return Err(GptError::NotInitialized);
        }
        let pair = match header::rebuild(
            self.guid,
            &self.partitions,
            self.disk_len,
            self.config.lb_size,
        ) {
            Ok(p) => p,
            Err(e) => {
                return Err(e);
            },
        };
        let h1 = pair.0;
        let h2 = pair.1;
        let bs: u64 = self.config.lb_size.bytes();
        let sectors: u64 = self.disk_len / bs;
        proof {
            vstd::arithmetic::div_mod::lemma_fundamental_div_mod(
                self.disk_len as int,
                bs as int,
            );
            vstd::arithmetic::div_mod::lemma_mod_bound(self.disk_len as int, bs as int);
            assert((sectors as int - 1) * bs as int <= self.disk_len as int - bs as int)
                by (nonlinear_arith)
                requires
                    sectors as int == self.disk_len as int / bs as int,
                    bs as int * (self.disk_len as int / bs as int) <= self.disk_len as int,
                    bs >= 1,
            ;
        }
        let back_offset: u64 = (sectors - 1) * bs;
        let b2: Vec<u8> = h2.encode(self.config.lb_size);
        let b1: Vec<u8> = h1.encode(self.config.lb_size);
        let mut ops: Vec<SectorWrite> = Vec::new();
        ops.push(SectorWrite { offset: back_offset, bytes: b2 });
        ops.push(SectorWrite { offset: bs, bytes: b1 });
        let disk = GptDisk {
            primary_header: Some(h1),
            backup_header: Some(h2),
            ..self
        };
        Ok((disk, ops))
    }
}

} // verus!

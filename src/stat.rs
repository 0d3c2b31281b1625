//! File metadata records of the sync protocol.
use vstd::prelude::*;
use crate::error::AdbError;
use crate::wire::{le32_at, read_le32};

verus! {

/// Directory bit of a file mode.
pub const S_IFDIR: u32 = 0x4000;

/// Whether a file mode names a directory.
pub open spec fn is_dir_mode(mode: u32) -> bool {
    mode & 0x4000u32 != 0
}

/// Mode, size and modification time of a remote file, as a `STAT` reply
/// gives them.
#[derive(Debug, Clone)]
pub struct StatData {
    mode: u32,
    size: u32,
    mtime: i64,
}

impl StatData {
    pub closed spec fn spec_mode(&self) -> u32 {
        self.mode
    }

    pub closed spec fn spec_size(&self) -> u32 {
        self.size
    }

    pub closed spec fn spec_mtime(&self) -> i64 {
        self.mtime
    }

    /// Decodes the 12-byte record: mode, size and mtime, each a
    /// little-endian `u32`.
    pub fn from_bytes(data: &[u8]) -> (r: Result<StatData, AdbError>)
        ensures
            r is Ok <==> data@.len() == 12,
            r matches Ok(s) ==> s.spec_mode() == le32_at(data@, 0) && s.spec_size() == le32_at(
                data@,
                4,
            ) && s.spec_mtime() == le32_at(data@, 8),
            r matches Err(e) ==> e is Protocol,
    {
        if data.len() != 12 {
            return Err(AdbError::Protocol(String::from_str("invalid stat data length")));
        }
        Ok(StatData { mode: read_le32(data, 0), size: read_le32(data, 4), mtime: read_le32(data, 8) as i64 })
    }

    pub fn mode(&self) -> (r: u32)
        ensures
            r == self.spec_mode(),
    {
        self.mode
    }

    pub fn size(&self) -> (r: u32)
        ensures
            r == self.spec_size(),
    {
        self.size
    }

    pub fn mtime(&self) -> (r: i64)
        ensures
            r == self.spec_mtime(),
    {
        self.mtime
    }

    /// Whether the record describes a directory.
    pub fn is_directory(&self) -> (r: bool)
        ensures
            r == is_dir_mode(self.spec_mode()),
    {
        self.mode & S_IFDIR != 0
    }
}

/// Whether a `STAT` reply names a directory; a reply without a record does
/// not, since the server gives mode 0 for paths that do not exist.
pub fn is_remote_directory(reply: &Option<StatData>) -> (r: bool)
    ensures
        r == (reply matches Some(s) && is_dir_mode(s.spec_mode())),
{
    match reply {
        Some(s) => s.is_directory(),
        None => false,
    }
}

/// One record of a `LIST` reply.
#[derive(Debug, Clone)]
pub struct RemoteDirEntry {
    pub name: String,
    pub mode: u32,
    pub size: u32,
    pub mtime: u32,
}

/// What a pull with preservation copies to the local file.
#[derive(Debug, Clone, Copy)]
pub struct RemoteMetadata {
    pub mode: u32,
    pub mtime: i64,
}

impl RemoteMetadata {
    /// The metadata for preserving a pulled file, from the `STAT` reply;
    /// a reply without a record is an error here.
    pub fn from_stat_reply(reply: &Option<StatData>) -> (r: Result<RemoteMetadata, AdbError>)
        ensures
            match reply {
                Some(s) => r matches Ok(m) && m.mode == s.spec_mode() && m.mtime == s.spec_mtime(),
                None => r matches Err(AdbError::Protocol(_)),
            },
    {
        match reply {
            Some(s) => Ok(RemoteMetadata::from_stat(s)),
            None => Err(AdbError::Protocol(String::from_str("Unexpected response for STAT"))),
        }
    }

    /// The metadata that a `STAT` record carries.
    pub fn from_stat(stat: &StatData) -> (r: RemoteMetadata)
        ensures
            r.mode == stat.spec_mode(),
            r.mtime == stat.spec_mtime(),
    {
        RemoteMetadata { mode: stat.mode(), mtime: stat.mtime() }
    }
}

} // verus!

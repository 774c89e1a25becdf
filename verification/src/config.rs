use vstd::prelude::*;

verus! {

/// Size in bytes of the buffer that file contents are read through.
pub const BUFFER_SIZE: usize = 8192;

/// Name prefix of the temporary file that collects checksum lines while a
/// directory is being walked.
pub const TEMP_PREFIX: &'static str = ".tmp-checksums_";

/// Name prefix of a finished checksum file.
pub const FINAL_PREFIX: &'static str = "checksums_";

/// Unix permission bits given to a finished checksum file (read-only for all).
pub const CHECKSUM_FILE_MODE: u32 = 0o444;

} // verus!

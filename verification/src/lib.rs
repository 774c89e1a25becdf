//! Building blocks of a tool that writes a checksum line for every file of a
//! directory tree: the choice of hash algorithm, the streaming digest state,
//! the text of each line, and the rules that pick which files are hashed and
//! what the finished checksum file is called.

pub mod config;
pub mod text;
pub mod cli;
pub mod hash;
pub mod fs_op;

pub use config::{BUFFER_SIZE, TEMP_PREFIX, FINAL_PREFIX, CHECKSUM_FILE_MODE};
pub use text::{starts_with, text_eq};
pub use cli::{Args, Algo, AlgoError, parse_algo, algo_from_lowercase};
pub use hash::{ChecksumHasher, checksum_line, to_hex_lower};
pub use fs_op::{should_process, checksum_file_name, get_parent, relative_path};

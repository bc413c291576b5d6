//! Conversion of OpenStreetMap elements into Turtle statements: the encoding
//! of elements and their tags, the per-group transform, and the output
//! writer's file rotation.
use vstd::prelude::*;

pub mod escape;
pub mod parser;
pub mod patterns;
pub mod str_builder;
pub mod text;
pub mod utils;
pub mod writer;

verus! {

/// Options of a run.
pub struct Args {
    /// Enable verbose output.
    pub verbose: bool,
    /// File for the planet-size node cache.
    pub planet_cache: Option<String>,
    /// File for the node cache of small extracts.
    pub small_cache: Option<String>,
    pub cmd: Command,
}

/// What a run does.
pub enum Command {
    /// Parses an input file into multiple compressed Turtle files.
    Parse {
        /// Approximate maximum uncompressed file size, in MB, per output file.
        max_file_size: usize,
        /// Number of worker threads; by default, one per logical CPU.
        workers: Option<usize>,
        /// The input file.
        input_file: String,
        /// The output directory.
        output_dir: String,
    },
}

/// The rotation threshold in bytes for a size given in MB.
pub fn max_file_bytes(max_file_size_mb: usize) -> (r: usize)
    requires
        max_file_size_mb * 1024 * 1024 <= usize::MAX,
    ensures
        r == max_file_size_mb * 1024 * 1024,
{
    max_file_size_mb * 1024 * 1024
}

} // verus!

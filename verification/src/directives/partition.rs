use crate::cli::PartitionArgs;
use crate::midi::MIDIFile;
use crate::storage::{
    partition_scheme, partitioned_path_for, PartitionPathGenerator, PathGenerator,
    PathGeneratorError,
};
use vstd::prelude::*;

verus! {

/// Generate the partition(s) for a MIDI pitch sequence within a partitioning scheme.
/// If no partition depth is provided, will default to a depth of 1.
#[derive(Debug, PartialEq, Eq)]
pub struct PartitionDirective {
    /// MIDI value of each note of the melody
    pub note_vec: Vec<u8>,
    pub partition: PartitionArgs,
}

/// Partition depth where none is given.
pub const DEFAULT_PARTITION_DEPTH: u32 = 1;

/// The depth that the arguments ask for.
pub open spec fn resolve_depth(partition_depth: Option<u32>) -> u32 {
    match partition_depth {
        Some(depth) => depth,
        None => DEFAULT_PARTITION_DEPTH,
    }
}

/// The path of the melody `pitches` among the melodies of its length over
/// as many notes as it is long.
pub open spec fn directive_path(pitches: Seq<u8>, max_files: u32, depth: u32) -> Result<
    Seq<char>,
    PathGeneratorError,
> {
    match partition_scheme(pitches.len(), pitches.len(), max_files as nat, depth as nat) {
        Err(e) => Err(PathGeneratorError::PartitionPathGenerator(e)),
        Ok(scheme) => partitioned_path_for(scheme, pitches),
    }
}

impl PartitionDirective {
    /// The storage path of the melody.
    pub fn gen_path(&self) -> (r: Result<String, PathGeneratorError>)
        requires
            self.note_vec@.len() <= u32::MAX,
        ensures
            crate::storage::path_matches(
                r,
                directive_path(
                    self.note_vec@,
                    self.partition.max_files,
                    resolve_depth(self.partition.partition_depth),
                ),
            ),
    {
        let melody_length = self.note_vec.len() as u32;
        let max_files = self.partition.max_files;
        let partition_depth = match self.partition.partition_depth {
            Some(depth) => depth,
            None => DEFAULT_PARTITION_DEPTH,
        };
        match PartitionPathGenerator::new(melody_length, melody_length, max_files, partition_depth) {
            Ok(path_generator) => {
                let note_vec = self.note_vec.clone();
                assert(note_vec@ =~= self.note_vec@);
                let mfile = MIDIFile::new(note_vec, Vec::new());
                path_generator.gen_path_for_file(&mfile)
            },
            Err(e) => Err(PathGeneratorError::PartitionPathGenerator(e)),
        }
    }
}

} // verus!

pub mod batch_tar_file;
pub mod fanout;
pub mod tar_archive;
pub mod tar_file;
pub mod tar_gz_file;

use crate::midi::{
    file_name, lemma_concat_plain, lemma_file_name_plain, lemma_render_plain, plain_path,
    push_pitches, render_pitches, MIDIFile,
};
use crate::partition::{
    covers, least_cover, lemma_covers_tail, lemma_covers_whole, lemma_least_cover_bound,
    lemma_pow_nonnegative, partition_length,
};
use crate::storage::tar_archive::TarArchiveError;
use crate::utils::checked_pow;
use vstd::arithmetic::power::*;
use vstd::prelude::*;
use vstd::string::*;

verus! {

/// Why a partitioned path could not be produced.
#[derive(Debug, Clone, Copy, PartialEq, Eq)]
pub enum PartitionPathGeneratorError {
    /// The melody handed in does not have the length the generator was built for
    MelodyLengthMismatch { expected: u32, observed: u32 },
    /// More partition levels were asked for than the melody has notes
    PartitionDepthLongerThanMelody { partition_depth: u32, melody_length: u32 },
    /// Depth times length takes in more notes than the melody has
    PartitionsLongerThanMelody { melody_length: u32, partition_depth: u32, partition_length: u32 },
}

/// Error type of path generators.
#[derive(Debug, Clone, Copy, PartialEq, Eq)]
pub enum PathGeneratorError {
    PartitionPathGenerator(PartitionPathGeneratorError),
}

/// A store that takes MIDI files one at a time and is closed by `finish`.
pub trait StorageBackend: Sized {
    /// The backend's internal invariant.
    spec fn valid(&self) -> bool;

    /// Whether the backend still takes files.
    spec fn is_open(&self) -> bool;

    /// Append MIDI file to storage backend
    fn append_file(&mut self, mfile: MIDIFile, mode: Option<u32>) -> (r: Result<
        (),
        TarArchiveError,
    >)
        requires
            old(self).valid(),
        ensures
            final(self).valid(),
            !old(self).is_open() ==> r is Err && !final(self).is_open(),
            r is Ok ==> final(self).is_open(),
    ;

    /// Conduct cleanup of storage backend and close for writing
    fn finish(&mut self) -> (r: Result<(), TarArchiveError>)
        requires
            old(self).valid(),
        ensures
            final(self).valid(),
            !final(self).is_open(),
            !old(self).is_open() ==> r is Ok,
    ;
}

/// Storage backends that give up the bytes they have written.
pub trait IntoInner: StorageBackend {
    /// Finish writing storage backends and return the inner object
    fn into_inner(self) -> (r: Result<Vec<u8>, TarArchiveError>)
        requires
            self.valid(),
    ;
}

/// Whether an executable result carries the path, or the error, that `expected` names.
pub open spec fn path_matches(
    r: Result<String, PathGeneratorError>,
    expected: Result<Seq<char>, PathGeneratorError>,
) -> bool {
    match (r, expected) {
        (Ok(path), Ok(want)) => path@ == want,
        (Err(e), Err(want)) => e == want,
        _ => false,
    }
}

/// Maps a MIDI file to the path under which a storage backend keeps it.
pub trait PathGenerator {
    /// The path for a melody, given by its pitches.
    spec fn path_for(&self, pitches: Seq<u8>) -> Result<Seq<char>, PathGeneratorError>;

    /// Generate storage path for MIDI file
    fn gen_path_for_file(&self, mfile: &MIDIFile) -> (r: Result<String, PathGeneratorError>)
        ensures
            path_matches(r, self.path_for(mfile.sequence@)),
            r matches Ok(path) ==> plain_path(path@),
    ;
}

/// Path generator that names a file by its hash, without parent directories.
pub struct MIDIHashPathGenerator;

impl PathGenerator for MIDIHashPathGenerator {
    open spec fn path_for(&self, pitches: Seq<u8>) -> Result<Seq<char>, PathGeneratorError> {
        Ok(file_name(pitches))
    }

    fn gen_path_for_file(&self, mfile: &MIDIFile) -> (r: Result<String, PathGeneratorError>) {
        proof {
            lemma_file_name_plain(mfile.sequence@);
        }
        Ok(mfile.gen_file_name())
    }
}

/// Melody length, partition depth and notes per partition of a partitioned layout.
pub struct PartitionScheme {
    pub melody_length: nat,
    pub partition_depth: nat,
    pub partition_length: nat,
}

/// The `w`-th window of `p` pitches.
pub open spec fn window(pitches: Seq<u8>, p: nat, w: nat) -> Seq<u8> {
    pitches.subrange((w * p) as int, ((w + 1) * p) as int)
}

/// The first `n` windows of `p` pitches each, rendered and joined by the path separator.
pub open spec fn join_windows(pitches: Seq<u8>, p: nat, n: nat) -> Seq<char>
    decreases n,
{
    if n == 0 {
        Seq::empty()
    } else if n == 1 {
        render_pitches(window(pitches, p, 0))
    } else {
        join_windows(pitches, p, (n - 1) as nat) + seq!['/'] + render_pitches(
            window(pitches, p, (n - 1) as nat),
        )
    }
}

/// A file name below a directory path; an empty directory path adds nothing.
pub open spec fn join_path(base: Seq<char>, name: Seq<char>) -> Seq<char> {
    if base.len() == 0 {
        name
    } else {
        base + seq!['/'] + name
    }
}

/// The melody length as reported in an error.
pub open spec fn observed_length(len: nat) -> u32 {
    if len > u32::MAX {
        u32::MAX
    } else {
        len as u32
    }
}

/// Directory part of the path of a melody under a scheme.
pub open spec fn basename_for(scheme: PartitionScheme, pitches: Seq<u8>) -> Result<
    Seq<char>,
    PathGeneratorError,
> {
    if pitches.len() != scheme.melody_length {
        Err(
            PathGeneratorError::PartitionPathGenerator(
                PartitionPathGeneratorError::MelodyLengthMismatch {
                    expected: scheme.melody_length as u32,
                    observed: observed_length(pitches.len()),
                },
            ),
        )
    } else {
        Ok(join_windows(pitches, scheme.partition_length, scheme.partition_depth))
    }
}

/// Full path of a melody under a scheme.
pub open spec fn partitioned_path_for(scheme: PartitionScheme, pitches: Seq<u8>) -> Result<
    Seq<char>,
    PathGeneratorError,
> {
    match basename_for(scheme, pitches) {
        Ok(base) => Ok(join_path(base, file_name(pitches))),
        Err(e) => Err(e),
    }
}

/// What `gen_partition_length` returns.
pub open spec fn partition_length_result(k: nat, l: nat, m: nat, d: nat) -> Result<
    u32,
    PartitionPathGeneratorError,
> {
    let p = partition_length(k, l, m, d);
    if d * p > l {
        Err(
            PartitionPathGeneratorError::PartitionsLongerThanMelody {
                melody_length: l as u32,
                partition_depth: d as u32,
                partition_length: p as u32,
            },
        )
    } else {
        Ok(p as u32)
    }
}

/// The scheme that `new` builds, or the error it reports.
pub open spec fn partition_scheme(k: nat, l: nat, m: nat, d: nat) -> Result<
    PartitionScheme,
    PartitionPathGeneratorError,
> {
    if d > l {
        Err(
            PartitionPathGeneratorError::PartitionDepthLongerThanMelody {
                partition_depth: d as u32,
                melody_length: l as u32,
            },
        )
    } else if k == 1 || pow(k as int, l) <= m {
        Ok(PartitionScheme { melody_length: l, partition_depth: 1, partition_length: 0 })
    } else {
        match partition_length_result(k, l, m, d) {
            Ok(p) => Ok(
                PartitionScheme { melody_length: l, partition_depth: d, partition_length: p as nat },
            ),
            Err(e) => Err(e),
        }
    }
}

/// Path generator for partitioned layouts: the leading notes of a melody
/// name its directories, so that no directory holds more than a set number
/// of files.
pub struct PartitionPathGenerator {
    /// Length of melodies to generate partitions for
    melody_length: u32,
    /// Partition depth (i.e., number of partitions to generate)
    partition_depth: u32,
    /// Number of MIDI notes per partition
    partition_length: u32,
}

impl View for PartitionPathGenerator {
    type V = PartitionScheme;

    closed spec fn view(&self) -> PartitionScheme {
        PartitionScheme {
            melody_length: self.melody_length as nat,
            partition_depth: self.partition_depth as nat,
            partition_length: self.partition_length as nat,
        }
    }
}

/// Product of two 32-bit numbers, which always fits in 64 bits.
fn wide_product(a: u32, b: u32) -> (r: u64)
    ensures
        r == a * b,
{
    assert(a * b <= 0xffff_ffff * 0xffff_ffff) by (nonlinear_arith)
        requires
            a <= 0xffff_ffff,
            b <= 0xffff_ffff,
    ;
    a as u64 * b as u64
}

/// Whether `m * (k^d)^p >= k^l`.
pub fn partitions_cover(k: u32, l: u32, m: u32, d: u32, p: u32) -> (b: bool)
    ensures
        b == covers(k as nat, l as nat, m as nat, d as nat, p as nat),
{
    let taken: u64 = wide_product(d, p);
    if k == 0 {
        // Without notes there is one melody of length 0 and none of any other
        proof {
            lemma_pow_nonnegative(0, taken as nat);
            if l > 0 {
                lemma0_pow(l as nat);
                assert(m * pow(0, taken as nat) >= 0) by (nonlinear_arith)
                    requires
                        m >= 0,
                        pow(0, taken as nat) >= 0,
                ;
            } else {
                lemma_pow0(0);
                if taken > 0 {
                    lemma0_pow(taken as nat);
                }
            }
        }
        return l > 0 || (taken == 0 && m >= 1);
    }
    if m == 0 {
        proof {
            lemma_pow_positive(k as int, l as nat);
        }
        return false;
    }
    if taken >= l as u64 {
        proof {
            lemma_covers_whole(k as nat, l as nat, m as nat, d as nat, p as nat);
        }
        true
    } else {
        let rest: u32 = l - taken as u32;
        proof {
            lemma_covers_tail(k as nat, l as nat, m as nat, d as nat, p as nat);
        }
        match checked_pow(k as u64, rest) {
            Some(tail) => tail <= m as u64,
            None => false,
        }
    }
}

impl PartitionPathGenerator {
    #[verifier::type_invariant]
    spec fn well_formed(self) -> bool {
        &&& self.partition_depth * self.partition_length <= self.melody_length
        &&& self.partition_length == 0 ==> self.partition_depth <= 1
    }

    /// Generate partition length (number of MIDI notes per partition)
    pub fn gen_partition_length(
        num_notes: u32,
        melody_length: u32,
        max_files: u32,
        partition_depth: u32,
    ) -> (r: Result<u32, PartitionPathGeneratorError>)
        ensures
            r == partition_length_result(
                num_notes as nat,
                melody_length as nat,
                max_files as nat,
                partition_depth as nat,
            ),
            r matches Ok(p) ==> partition_depth * p <= melody_length,
    {
        let ghost k = num_notes as nat;
        let ghost l = melody_length as nat;
        let ghost m = max_files as nat;
        let ghost d = partition_depth as nat;
        if partition_depth == 0 {
            return Ok(0);
        }
        let mut p: u32 = 0;
        let mut found = partitions_cover(num_notes, melody_length, max_files, partition_depth, 0);
        while !found && p < melody_length
            invariant
                k == num_notes,
                l == melody_length,
                m == max_files,
                d == partition_depth,
                d >= 1,
                p <= melody_length,
                found == covers(k, l, m, d, p as nat),
                partition_length(k, l, m, d) == least_cover(k, l, m, d, p as nat),
            decreases melody_length - p,
        {
            assert(least_cover(k, l, m, d, p as nat) == least_cover(k, l, m, d, (p + 1) as nat));
            p = p + 1;
            found = partitions_cover(num_notes, melody_length, max_files, partition_depth, p);
        }
        assert(partition_length(k, l, m, d) == p);
        if wide_product(partition_depth, p) > melody_length as u64 {
            Err(
                PartitionPathGeneratorError::PartitionsLongerThanMelody {
                    melody_length,
                    partition_depth,
                    partition_length: p,
                },
            )
        } else {
            Ok(p)
        }
    }

    /// Create new `PartitionPathGenerator` instance
    pub fn new(num_notes: u32, melody_length: u32, max_files: u32, partition_depth: u32) -> (r:
        Result<Self, PartitionPathGeneratorError>)
        ensures
            match (
                r,
                partition_scheme(
                    num_notes as nat,
                    melody_length as nat,
                    max_files as nat,
                    partition_depth as nat,
                ),
            ) {
                (Ok(generator), Ok(scheme)) => generator@ == scheme,
                (Err(e), Err(want)) => e == want,
                _ => false,
            },
    {
        // Ensure partition depth is less than length of generated melodies
        if partition_depth > melody_length {
            return Err(
                PartitionPathGeneratorError::PartitionDepthLongerThanMelody {
                    partition_depth,
                    melody_length,
                },
            );
        }
        // With one note, or no more melodies than one directory may hold,
        // everything goes into one flat directory
        let flat = num_notes == 1 || match checked_pow(num_notes as u64, melody_length) {
            Some(num_melodies) => num_melodies <= max_files as u64,
            None => false,
        };
        if flat {
            return Ok(Self { melody_length, partition_depth: 1, partition_length: 0 });
        }
        match Self::gen_partition_length(num_notes, melody_length, max_files, partition_depth) {
            Ok(partition_length) => {
                proof {
                    if partition_length == 0 && partition_depth >= 1 {
                        // Length 0 would mean that one directory holds all
                        // melodies, which is the flat layout
                        lemma_least_cover_bound(
                            num_notes as nat,
                            melody_length as nat,
                            max_files as nat,
                            partition_depth as nat,
                            1,
                        );
                        lemma_pow0(num_notes as int);
                        assert(partition_depth as nat * 0 == 0);
                        assert(melody_length == 0 || covers(
                            num_notes as nat,
                            melody_length as nat,
                            max_files as nat,
                            partition_depth as nat,
                            0,
                        ));
                    }
                }
                Ok(Self { melody_length, partition_depth, partition_length })
            },
            Err(e) => Err(e),
        }
    }

    /// Generate basename (parent directory/directories) for filepath
    pub fn gen_basename_for_file(&self, mfile: &MIDIFile) -> (r: Result<
        String,
        PathGeneratorError,
    >)
        ensures
            path_matches(r, basename_for(self@, mfile.sequence@)),
            r matches Ok(basename) ==> plain_path(basename@),
    {
        proof {
            use_type_invariant(self);
        }
        // Ensure melody is expected length
        let len = mfile.sequence.len();
        if len != self.melody_length as usize {
            let observed: u32 = if len > u32::MAX as usize {
                u32::MAX
            } else {
                len as u32
            };
            return Err(
                PathGeneratorError::PartitionPathGenerator(
                    PartitionPathGeneratorError::MelodyLengthMismatch {
                        expected: self.melody_length,
                        observed,
                    },
                ),
            );
        }
        let ghost pitches = mfile.sequence@;
        let ghost p = self.partition_length as nat;
        let width = self.partition_length as usize;
        let mut basename = String::new();
        let mut w: u32 = 0;
        while w < self.partition_depth
            invariant
                w <= self.partition_depth,
                self.partition_depth * self.partition_length <= self.melody_length,
                pitches == mfile.sequence@,
                pitches.len() == self.melody_length,
                p == self.partition_length,
                width == self.partition_length,
                basename@ == join_windows(pitches, p, w as nat),
            decreases self.partition_depth - w,
        {
            let ghost before = basename@;
            assert(w * p + p == (w + 1) * p && 0 <= w * p && (w + 1) * p
                <= self.partition_depth * self.partition_length) by (nonlinear_arith)
                requires
                    0 <= w < self.partition_depth,
                    p == self.partition_length,
            ;
            if w > 0 {
                proof {
                    reveal_strlit("/");
                }
                basename.append("/");
                assert(basename@ =~= before + seq!['/']);
            }
            let from = w as usize * width;
            push_pitches(&mut basename, &mfile.sequence, from, from + width);
            proof {
                assert(basename@ =~= join_windows(pitches, p, (w + 1) as nat));
            }
            w = w + 1;
        }
        proof {
            lemma_join_windows_plain(pitches, p, self.partition_depth as nat);
        }
        Ok(basename)
    }

    /// Length of the melodies that the generator accepts.
    pub fn melody_length(&self) -> (l: u32)
        ensures
            l == self@.melody_length,
    {
        self.melody_length
    }

    /// Number of partition levels.
    pub fn partition_depth(&self) -> (d: u32)
        ensures
            d == self@.partition_depth,
    {
        self.partition_depth
    }

    /// Number of notes per partition level.
    pub fn partition_length(&self) -> (p: u32)
        ensures
            p == self@.partition_length,
    {
        self.partition_length
    }
}

impl PathGenerator for PartitionPathGenerator {
    open spec fn path_for(&self, pitches: Seq<u8>) -> Result<Seq<char>, PathGeneratorError> {
        partitioned_path_for(self@, pitches)
    }

    fn gen_path_for_file(&self, mfile: &MIDIFile) -> (r: Result<String, PathGeneratorError>) {
        // Generate basename (could be "")
        let basename = match self.gen_basename_for_file(mfile) {
            Ok(basename) => basename,
            Err(e) => {
                return Err(e);
            },
        };
        // Generate filename from MIDI file hash
        let filename = mfile.gen_file_name();
        proof {
            lemma_join_windows_plain(
                mfile.sequence@,
                self@.partition_length,
                self@.partition_depth,
            );
            lemma_file_name_plain(mfile.sequence@);
            lemma_join_path_plain(basename@, filename@);
        }
        Ok(join_paths(basename, &filename))
    }
}

/// Joined windows are plain paths.
pub proof fn lemma_join_windows_plain(pitches: Seq<u8>, p: nat, n: nat)
    ensures
        plain_path(join_windows(pitches, p, n)),
    decreases n,
{
    if n == 0 {
    } else if n == 1 {
        lemma_render_plain(window(pitches, p, 0));
    } else {
        lemma_join_windows_plain(pitches, p, (n - 1) as nat);
        lemma_render_plain(window(pitches, p, (n - 1) as nat));
        lemma_concat_plain(join_windows(pitches, p, (n - 1) as nat), seq!['/']);
        lemma_concat_plain(
            join_windows(pitches, p, (n - 1) as nat) + seq!['/'],
            render_pitches(window(pitches, p, (n - 1) as nat)),
        );
    }
}

/// A plain name below a plain directory path is a plain path.
pub proof fn lemma_join_path_plain(base: Seq<char>, name: Seq<char>)
    requires
        plain_path(base),
        plain_path(name),
    ensures
        plain_path(join_path(base, name)),
{
    if base.len() > 0 {
        lemma_concat_plain(base, seq!['/']);
        lemma_concat_plain(base + seq!['/'], name);
    }
}

/// Puts a file name below a directory path.
pub fn join_paths(base: String, name: &String) -> (path: String)
    ensures
        path@ == join_path(base@, name@),
{
    let mut path = base;
    if !path.as_str().is_empty() {
        proof {
            reveal_strlit("/");
        }
        path.append("/");
    }
    path.append(name.as_str());
    assert(path@ =~= join_path(base@, name@));
    path
}

} // verus!

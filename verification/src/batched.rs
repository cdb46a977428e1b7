use crate::midi::render_pitches;
use crate::partition::{lemma_least_cover_bound, partition_length};
use crate::storage::fanout::{lemma_render_len, two_digit};
use crate::storage::{join_windows, window, PartitionPathGenerator, PartitionPathGeneratorError};
use vstd::prelude::*;
use vstd::string::*;

verus! {

/// State of a batched archive: tar archives are either `Open` or `Closed`
/// and, once `Closed`, cannot be modified.
#[derive(Debug, Clone, Copy, PartialEq, Eq, Structural)]
pub enum BatchedMIDIArchiveState {
    Open,
    Closed,
}

/// Calculate number of MIDI notes per partition: with `N` the number of
/// melodies of length `length` over `num_notes` notes, the least number of
/// notes for which `max_file_count` files per directory, in directories
/// branching `partition_depth` times by that many notes, take in all `N`.
pub fn gen_partition_size(
    num_notes: u32,
    length: u32,
    max_file_count: u32,
    partition_depth: u32,
) -> (size: u32)
    ensures
        size == partition_length(
            num_notes as nat,
            length as nat,
            max_file_count as nat,
            partition_depth as nat,
        ),
{
    proof {
        lemma_least_cover_bound(
            num_notes as nat,
            length as nat,
            max_file_count as nat,
            partition_depth as nat,
            0,
        );
    }
    match PartitionPathGenerator::gen_partition_length(
        num_notes,
        length,
        max_file_count,
        partition_depth,
    ) {
        Ok(size) => size,
        Err(PartitionPathGeneratorError::PartitionsLongerThanMelody { partition_length, .. }) => {
            partition_length
        },
        Err(_) => 0,
    }
}

/// Number of the batch that is written out once `file_count` files have
/// been written, with `max_files` files per partition and `batch_size`
/// files per batch: the batches of a partition are numbered from 1.
pub fn gen_batch_number(file_count: u64, max_files: u64, batch_size: u32) -> (number: u64)
    requires
        max_files > 0,
        batch_size > 0,
    ensures
        number == (file_count % max_files) as int / batch_size as int + 1,
{
    (file_count % max_files) / batch_size as u64 + 1
}

/// Whether the batch that is being filled has to be written out before a
/// file of partition `partition` is added: a partition has been set, and
/// the file belongs to another.
pub fn flush_before_push(current_partition: &String, partition: &String) -> (flush: bool)
    ensures
        flush == (current_partition@.len() != 0 && current_partition@ != partition@),
{
    !current_partition.as_str().is_empty() && *current_partition != *partition
}

/// Whether the batch has to be written out after a file was added: it
/// holds as many files as a batch may hold.
pub fn flush_after_push(files_in_batch: u32, batch_size: u32) -> (flush: bool)
    ensures
        flush == (files_in_batch == batch_size),
{
    files_in_batch == batch_size
}

/// The first `n` runs of `width` characters of a hash, joined by the path separator.
pub open spec fn hash_windows(hash: Seq<char>, width: nat, n: nat) -> Seq<char>
    decreases n,
{
    if n == 0 {
        Seq::empty()
    } else if n == 1 {
        hash.subrange(0, width as int)
    } else {
        hash_windows(hash, width, (n - 1) as nat) + seq!['/'] + hash.subrange(
            ((n - 1) * width) as int,
            (n * width) as int,
        )
    }
}

/// Generate a path representing the partition for the given MIDI hash:
/// `partition_depth` runs of two characters for each of `partition_size`
/// notes, from the start of the hash, separated by the path separator.
pub fn gen_path(hash: &str, partition_size: u32, partition_depth: u32) -> (path: String)
    requires
        hash.is_ascii(),
        2 * partition_size * partition_depth <= hash@.len(),
    ensures
        path@ == hash_windows(hash@, 2 * partition_size as nat, partition_depth as nat),
{
    if partition_depth == 0 {
        return String::new();
    }
    let ghost width = 2 * partition_size as nat;
    let len = hash.unicode_len();
    assert(2 * partition_size <= 2 * partition_size * partition_depth) by (nonlinear_arith)
        requires
            partition_depth >= 1,
            partition_size >= 0,
    ;
    let step: usize = 2 * partition_size as usize;
    let mut path = String::new();
    let mut part: u32 = 0;
    while part < partition_depth
        invariant
            part <= partition_depth,
            hash.is_ascii(),
            len == hash@.len(),
            width == 2 * partition_size,
            step == width,
            width * partition_depth <= hash@.len(),
            path@ == hash_windows(hash@, width, part as nat),
        decreases partition_depth - part,
    {
        let ghost before = path@;
        assert(part * width + width == (part + 1) * width && 0 <= part * width && (part + 1)
            * width <= width * partition_depth) by (nonlinear_arith)
            requires
                0 <= part < partition_depth,
                width >= 0,
        ;
        if part > 0 {
            proof {
                reveal_strlit("/");
            }
            path.append("/");
            assert(path@ =~= before + seq!['/']);
        }
        let from = part as usize * step;
        path.append(hash.substring_ascii(from, from + step));
        proof {
            assert(path@ =~= hash_windows(hash@, width, (part + 1) as nat));
        }
        part = part + 1;
    }
    path
}

/// The rendering of two runs of pitches, one after the other, is the two
/// renderings, one after the other.
pub proof fn lemma_render_concat(a: Seq<u8>, b: Seq<u8>)
    ensures
        render_pitches(a + b) == render_pitches(a) + render_pitches(b),
    decreases b.len(),
{
    if b.len() == 0 {
        assert(a + b =~= a);
        assert(render_pitches(a) + render_pitches(b) =~= render_pitches(a));
    } else {
        lemma_render_concat(a, b.drop_last());
        assert((a + b).drop_last() =~= a + b.drop_last());
        assert((a + b).last() == b.last());
        assert(render_pitches(a + b) =~= render_pitches(a) + render_pitches(b));
    }
}

/// In the hash of a melody of two-digit pitches, the characters of the
/// `w`-th run of `2 * p` are the rendering of the `w`-th window of `p` pitches.
pub proof fn lemma_hash_window(pitches: Seq<u8>, p: nat, w: nat)
    requires
        two_digit(pitches),
        (w + 1) * p <= pitches.len(),
    ensures
        render_pitches(pitches).subrange((w * (2 * p)) as int, ((w + 1) * (2 * p)) as int)
            == render_pitches(window(pitches, p, w)),
{
    assert(0 <= w * p && w * p + p == (w + 1) * p && w * (2 * p) == 2 * (w * p) && (w + 1) * (2
        * p) == 2 * (w * p) + 2 * p) by (nonlinear_arith);
    let from = (w * p) as int;
    let to = ((w + 1) * p) as int;
    let before = pitches.subrange(0, from);
    let inside = window(pitches, p, w);
    let after = pitches.subrange(to, pitches.len() as int);
    assert(pitches =~= before + inside + after);
    lemma_render_concat(before + inside, after);
    lemma_render_concat(before, inside);
    lemma_render_len(before);
    lemma_render_len(inside);
    let hash = render_pitches(pitches);
    assert(hash == render_pitches(before) + render_pitches(inside) + render_pitches(after));
    assert(hash.subrange(2 * from, 2 * from + 2 * p) =~= render_pitches(inside));
}

/// For melodies of two-digit pitches, the partition path cut out of the
/// hash is the one made of the pitches themselves.
pub proof fn lemma_hash_windows_are_pitch_windows(pitches: Seq<u8>, p: nat, n: nat)
    requires
        two_digit(pitches),
        n * p <= pitches.len(),
    ensures
        hash_windows(render_pitches(pitches), 2 * p, n) == join_windows(pitches, p, n),
    decreases n,
{
    if n >= 1 {
        let last = (n - 1) as nat;
        assert(last * p + p == n * p && last * p >= 0) by (nonlinear_arith)
            requires
                last == n - 1,
        ;
        lemma_hash_window(pitches, p, last);
        if n == 1 {
            assert(0 * (2 * p) == 0 && 1 * (2 * p) == 2 * p) by (nonlinear_arith);
        } else {
            lemma_hash_windows_are_pitch_windows(pitches, p, last);
        }
    }
}

} // verus!

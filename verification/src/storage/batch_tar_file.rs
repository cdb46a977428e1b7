use crate::midi::{
    file_name, lemma_concat_plain, lemma_decimal_plain, plain_path, push_decimal, render_decimal,
    MIDIFile,
};
use crate::storage::tar_archive::{
    entry_image, finished, in_blocks, io_error_message, resolve_mode, tar_append, tar_builder,
    tar_finish, tar_take, written, zeros, IOFailure, StorageState, TarArchive, TarArchiveError,
    TarWriter, DEFAULT_MODE,
};
use crate::storage::tar_gz_file::{
    compress_archive, gen_compression, gzip_image, resolve_compression, MAX_COMPRESSION,
};
use crate::storage::{
    basename_for, join_path, join_paths, partition_scheme, IntoInner, MIDIHashPathGenerator,
    PartitionPathGenerator, PartitionScheme, PathGeneratorError, StorageBackend,
};
use vstd::prelude::*;
use vstd::string::*;

verus! {

/// One file of a batch.
pub struct BatchEntry {
    pub pitches: Seq<u8>,
    pub data: Seq<u8>,
    pub mode: Option<u32>,
}

/// One inner archive: the partition it belongs to, its number within the
/// partition, and its files in the order in which they came.
pub struct Batch {
    pub partition: Seq<char>,
    pub number: nat,
    pub files: Seq<BatchEntry>,
}

/// The logical state of a batched archive.
pub struct BatchModel {
    /// Current partition path
    pub partition: Seq<char>,
    /// Number of the batch that is being filled
    pub batch_number: nat,
    /// Files of the batch that is being filled
    pub pending: Seq<BatchEntry>,
    /// Batches written to the top-level archive, oldest first
    pub flushed: Seq<Batch>,
}

/// Highest file mode accepted for the entries of the top-level archive.
pub const MAX_MODE: u32 = 0o777;

/// The entries of an inner archive, as the tar writer lays them out.
pub open spec fn inner_image(files: Seq<BatchEntry>) -> Seq<u8>
    decreases files.len(),
{
    if files.len() == 0 {
        Seq::empty()
    } else {
        let file = files.last();
        inner_image(files.drop_last()) + match entry_image(
            file_name(file.pitches),
            resolve_mode(file.mode),
            file.data,
        ) {
            Some(image) => image,
            None => Seq::empty(),
        }
    }
}

/// Name of a batch inside its partition: `batch<number>.tar.gz`.
pub open spec fn batch_name(number: nat) -> Seq<char> {
    seq!['b', 'a', 't', 'c', 'h'] + render_decimal(number) + seq![
        '.',
        't',
        'a',
        'r',
        '.',
        'g',
        'z',
    ]
}

/// Path of a batch in the top-level archive.
pub open spec fn batch_path(partition: Seq<char>, number: nat) -> Seq<char> {
    join_path(partition, batch_name(number))
}

/// The payload of a batch: its finished inner archive, compressed.
pub open spec fn batch_payload(level: u32, files: Seq<BatchEntry>) -> Option<Seq<u8>> {
    gzip_image(level, inner_image(files) + zeros(1024))
}

/// The entry of a batch in the top-level archive, or `None` where the
/// batch cannot be compressed or its entry cannot be written.
pub open spec fn batch_image(level: u32, mode: Option<u32>, batch: Batch) -> Option<Seq<u8>> {
    match batch_payload(level, batch.files) {
        Some(payload) => entry_image(
            batch_path(batch.partition, batch.number),
            resolve_mode(mode),
            payload,
        ),
        None => None,
    }
}

/// The batch that is being filled.
pub open spec fn current_batch(model: BatchModel) -> Batch {
    Batch { partition: model.partition, number: model.batch_number, files: model.pending }
}

/// The bytes that writing out the pending batch adds to the top-level
/// archive: the entry of the batch, or nothing where no file is pending.
pub open spec fn pending_image(level: u32, mode: Option<u32>, model: BatchModel) -> Seq<u8> {
    if model.pending.len() == 0 {
        Seq::empty()
    } else {
        match batch_image(level, mode, current_batch(model)) {
            Some(image) => image,
            None => Seq::empty(),
        }
    }
}

/// Whether the pending batch, if it holds anything, can be written out.
pub open spec fn can_flush(level: u32, mode: Option<u32>, model: BatchModel) -> bool {
    model.pending.len() == 0 || batch_image(level, mode, current_batch(model)) is Some
}

/// Whether what has to be written out before a file with the given
/// partition path is appended can be written out, and the next batch numbered.
pub open spec fn can_make_room(
    level: u32,
    mode: Option<u32>,
    model: BatchModel,
    batch_size: nat,
    basename: Seq<char>,
) -> bool {
    if basename != model.partition {
        can_flush(level, mode, model)
    } else if model.pending.len() == batch_size {
        model.batch_number < u32::MAX && can_flush(level, mode, model)
    } else {
        true
    }
}

/// The top-level archive that holds the given batches, without its end.
pub open spec fn outer_image(level: u32, mode: Option<u32>, batches: Seq<Batch>) -> Seq<u8>
    decreases batches.len(),
{
    if batches.len() == 0 {
        Seq::empty()
    } else {
        outer_image(level, mode, batches.drop_last()) + match batch_image(
            level,
            mode,
            batches.last(),
        ) {
            Some(image) => image,
            None => Seq::empty(),
        }
    }
}

/// The model after the pending batch, if it holds anything, has been written out.
pub open spec fn after_flush(model: BatchModel) -> BatchModel {
    BatchModel {
        flushed: if model.pending.len() > 0 {
            model.flushed.push(
                Batch {
                    partition: model.partition,
                    number: model.batch_number,
                    files: model.pending,
                },
            )
        } else {
            model.flushed
        },
        pending: Seq::empty(),
        ..model
    }
}

/// The model after a file with the given partition path has been appended
/// to an archive with batches of `batch_size` files.
pub open spec fn after_append(
    model: BatchModel,
    batch_size: nat,
    basename: Seq<char>,
    file: BatchEntry,
) -> BatchModel {
    let ready = if basename != model.partition {
        BatchModel { partition: basename, batch_number: 0, ..after_flush(model) }
    } else if model.pending.len() == batch_size {
        BatchModel { batch_number: model.batch_number + 1, ..after_flush(model) }
    } else {
        model
    };
    BatchModel { pending: ready.pending.push(file), ..ready }
}

/// Whether an append neither crosses a partition boundary nor finds the batch full.
pub open spec fn appends_in_place(model: BatchModel, batch_size: nat, basename: Seq<char>) -> bool {
    basename == model.partition && model.pending.len() != batch_size
}

/// Every file of `files` lies in the partition `partition`.
pub open spec fn files_in_partition(
    scheme: PartitionScheme,
    files: Seq<BatchEntry>,
    partition: Seq<char>,
) -> bool {
    forall|j: int|
        0 <= j < files.len() ==> basename_for(scheme, #[trigger] files[j].pitches) == Ok::<
            Seq<char>,
            PathGeneratorError,
        >(partition)
}

/// Batches hold between one and `batch_size` files, all from the batch's own partition.
pub open spec fn batches_bounded(
    scheme: PartitionScheme,
    batch_size: nat,
    batches: Seq<Batch>,
) -> bool {
    forall|i: int|
        0 <= i < batches.len() ==> 0 < (#[trigger] batches[i]).files.len() <= batch_size
            && files_in_partition(scheme, batches[i].files, batches[i].partition)
}

/// The number that the batch after `batches` gets in partition `partition`.
pub open spec fn next_number(batches: Seq<Batch>, partition: Seq<char>) -> nat {
    if batches.len() > 0 && batches.last().partition == partition {
        batches.last().number + 1
    } else {
        0
    }
}

/// The `i`-th batch carries the number that follows those before it.
pub open spec fn numbered_at(batches: Seq<Batch>, i: int) -> bool {
    batches[i].number == next_number(batches.subrange(0, i), batches[i].partition)
}

/// Within a run of batches of one partition the numbers start at 0 and go up by 1.
pub open spec fn batches_numbered(batches: Seq<Batch>) -> bool {
    forall|i: int| 0 <= i < batches.len() ==> #[trigger] numbered_at(batches, i)
}

/// Nested tar archive storage backend, where each entry in the archive is a
/// gzip-compressed tar archive containing MIDI files. Use for the largest
/// datasets, where the size of the output matters most: a batch whose
/// compressed archive stays within 512 bytes takes 1024 bytes in the
/// top-level archive, whatever the number of files in it.
pub struct BatchTarFile {
    /// Top-level archive
    archive: TarWriter,
    /// Batch archive buffer
    batch_archive: TarArchive<MIDIHashPathGenerator>,
    /// Compression level to use for batch archive
    batch_compression: u32,
    /// Number of files in current batch
    batch_count: u32,
    /// Maximum number of files per batch
    batch_size: u32,
    /// Permissions to use for entries in top-level archive file
    batch_mode: Option<u32>,
    /// Current batch number within partition
    batch_number: u32,
    /// Current partition path
    partition: String,
    /// Partition path generator
    path_generator: PartitionPathGenerator,
    /// Top-level archive file state
    state: StorageState,
    /// Files of the current batch
    pending: Ghost<Seq<BatchEntry>>,
    /// Batches written so far
    flushed: Ghost<Seq<Batch>>,
    /// Bytes of the top-level archive that were handed out
    taken: Ghost<Seq<u8>>,
}

impl View for BatchTarFile {
    type V = BatchModel;

    closed spec fn view(&self) -> BatchModel {
        BatchModel {
            partition: self.partition@,
            batch_number: self.batch_number as nat,
            pending: self.pending@,
            flushed: self.flushed@,
        }
    }
}

/// Builds the path of a batch in the top-level archive.
pub fn gen_batch_path(partition: &String, number: u32) -> (path: String)
    ensures
        path@ == batch_path(partition@, number as nat),
        plain_path(partition@) ==> plain_path(path@),
{
    proof {
        reveal_strlit("batch");
        reveal_strlit(".tar.gz");
        lemma_decimal_plain(number as nat);
        lemma_concat_plain(seq!['b', 'a', 't', 'c', 'h'], render_decimal(number as nat));
        lemma_concat_plain(
            seq!['b', 'a', 't', 'c', 'h'] + render_decimal(number as nat),
            seq!['.', 't', 'a', 'r', '.', 'g', 'z'],
        );
        if plain_path(partition@) {
            crate::storage::lemma_join_path_plain(partition@, batch_name(number as nat));
        }
    }
    let mut name = String::from_str("batch");
    push_decimal(&mut name, number);
    name.append(".tar.gz");
    assert(name@ =~= batch_name(number as nat));
    join_paths(partition.clone(), &name)
}

impl BatchTarFile {
    /// Open or closed.
    pub closed spec fn state_of(&self) -> StorageState {
        self.state
    }

    /// Maximum number of files per batch.
    pub closed spec fn batch_size(&self) -> nat {
        self.batch_size as nat
    }

    /// Compression level of the batches.
    pub closed spec fn level(&self) -> u32 {
        self.batch_compression
    }

    /// File mode of the entries of the top-level archive.
    pub closed spec fn mode(&self) -> Option<u32> {
        self.batch_mode
    }

    /// The partitioning scheme.
    pub closed spec fn scheme(&self) -> PartitionScheme {
        self.path_generator@
    }

    /// Whether the end of the top-level archive has been written.
    pub closed spec fn sealed(&self) -> bool {
        finished(self.archive)
    }

    /// Bytes of the top-level archive that wait to be taken out.
    pub closed spec fn unsaved(&self) -> Seq<u8> {
        written(self.archive)
    }

    /// All bytes of the top-level archive written since it was created.
    pub closed spec fn output(&self) -> Seq<u8> {
        self.taken@ + written(self.archive)
    }

    /// What holds of the archive whether or not it is between two appends.
    pub closed spec fn settled(&self) -> bool {
        &&& self.batch_size >= 1
        &&& self.batch_compression <= MAX_COMPRESSION
        &&& plain_path(self.partition@)
        &&& self.pending@.len() == self.batch_count
        &&& self.batch_count <= self.batch_size
        &&& self.batch_archive.state_of() is Open
        &&& self.batch_archive.bytes() == inner_image(self.pending@)
        &&& files_in_partition(self.path_generator@, self.pending@, self.partition@)
        &&& batches_bounded(self.path_generator@, self.batch_size as nat, self.flushed@)
        &&& batches_numbered(self.flushed@)
        &&& self.state is Open ==> !finished(self.archive)
        &&& in_blocks(self.taken@)
        &&& in_blocks(written(self.archive))
        &&& self.output() == outer_image(self.batch_compression, self.batch_mode, self.flushed@)
            + if finished(self.archive) {
            zeros(1024)
        } else {
            Seq::empty()
        }
    }

    /// Between two appends the number of the current batch continues the
    /// numbers of the batches written, and a batch is empty only before the
    /// first file.
    pub closed spec fn numbered(&self) -> bool {
        self.state is Open ==> {
            &&& self.batch_number == next_number(self.flushed@, self.partition@)
            &&& self.pending@.len() == 0 ==> self.flushed@.len() == 0
        }
    }

    /// Nothing but the state, the batches and the output differs between the two.
    pub closed spec fn same_settings(&self, other: &Self) -> bool {
        &&& self.batch_size == other.batch_size
        &&& self.batch_compression == other.batch_compression
        &&& self.batch_mode == other.batch_mode
        &&& self.path_generator@ == other.path_generator@
        &&& self.taken@ == other.taken@
    }

    /// Flush current batch archive into the top-level archive, if it holds
    /// anything, and start a new one. A failure closes the archive.
    fn flush_batch(&mut self) -> (r: Result<(), TarArchiveError>)
        requires
            old(self).settled(),
            old(self).numbered(),
            old(self).state is Open,
        ensures
            final(self).settled(),
            final(self).same_settings(old(self)),
            final(self).partition@ == old(self).partition@,
            final(self).batch_number == old(self).batch_number,
            final(self).pending@.len() == 0,
            final(self).sealed() == old(self).sealed(),
            r is Ok <==> can_flush(old(self).batch_compression, old(self).batch_mode, old(self)@),
            match r {
                Ok(()) => final(self).state is Open && final(self)@ == after_flush(old(self)@)
                    && final(self).unsaved() == old(self).unsaved() + pending_image(
                    old(self).batch_compression,
                    old(self).batch_mode,
                    old(self)@,
                ),
                Err(e) => final(self).state is Closed && e is IOError && final(self).flushed@
                    == old(self).flushed@ && final(self).output() == old(self).output()
                    && final(self).unsaved() == old(self).unsaved(),
            },
    {
        if self.batch_count == 0 {
            assert(self.unsaved() =~= self.unsaved() + Seq::<u8>::empty());
            assert(self.pending@ =~= Seq::<BatchEntry>::empty());
            return Ok(());
        }
        let ghost files = self.pending@;
        let ghost before = self.flushed@;
        // Finish batch archive and take its bytes
        let _ = self.batch_archive.finish();
        let bytes = self.batch_archive.take_bytes();
        // Initialize new batch archive
        self.batch_archive = TarArchive::new(MIDIHashPathGenerator);
        self.pending = Ghost(Seq::empty());
        self.batch_count = 0;
        assert(bytes@ == inner_image(files) + zeros(1024));
        let payload = match compress_archive(self.batch_compression, &bytes) {
            Ok(payload) => payload,
            Err(e) => {
                self.state = StorageState::Closed;
                assert(self.settled());
                return Err(e);
            },
        };
        let ghost total = self.output();
        // Construct path: `<partition>/batch<batch_number>.tar.gz`
        let path = gen_batch_path(&self.partition, self.batch_number);
        let mode = match self.batch_mode {
            Some(mode) => mode,
            None => DEFAULT_MODE,
        };
        // Write compressed batch to top-level archive
        match tar_append(&mut self.archive, path.as_str(), mode, payload.as_slice()) {
            Ok(()) => {
                let ghost batch = Batch {
                    partition: self.partition@,
                    number: self.batch_number as nat,
                    files,
                };
                self.flushed = Ghost(before.push(batch));
                proof {
                    let image = batch_image(self.batch_compression, self.batch_mode, batch);
                    assert(batch_payload(self.batch_compression, files) == Some(payload@));
                    assert(image is Some);
                    assert(self.output() =~= total + image->0);
                    assert(before.push(batch).drop_last() =~= before);
                    assert(before.push(batch).last() == batch);
                    assert(outer_image(
                        self.batch_compression,
                        self.batch_mode,
                        before.push(batch),
                    ) =~= outer_image(self.batch_compression, self.batch_mode, before) + image->0);
                    lemma_push_batch(
                        self.path_generator@,
                        self.batch_size as nat,
                        before,
                        batch,
                    );
                    assert(self.settled());
                }
                Ok(())
            },
            Err(e) => {
                self.state = StorageState::Closed;
                assert(self.settled());
                Err(TarArchiveError::IOError(IOFailure::Writer { message: io_error_message(&e) }))
            },
        }
    }

    /// Flush current batch archive, initialize new batch archive, and set
    /// batch counters appropriately. A failure closes the archive.
    fn flush_and_init_batch(&mut self, is_partition_boundary: bool) -> (r: Result<
        (),
        TarArchiveError,
    >)
        requires
            old(self).settled(),
            old(self).numbered(),
            old(self).state is Open,
            !is_partition_boundary ==> old(self).pending@.len() > 0,
        ensures
            final(self).settled(),
            final(self).same_settings(old(self)),
            final(self).partition@ == old(self).partition@,
            r is Ok <==> (is_partition_boundary || old(self).batch_number < u32::MAX) && can_flush(
                old(self).batch_compression,
                old(self).batch_mode,
                old(self)@,
            ),
            final(self).sealed() == old(self).sealed(),
            match r {
                Ok(()) => final(self).state is Open && final(self)@ == (BatchModel {
                    batch_number: if is_partition_boundary {
                        0
                    } else {
                        old(self)@.batch_number + 1
                    },
                    ..after_flush(old(self)@)
                }) && final(self).unsaved() == old(self).unsaved() + pending_image(
                    old(self).batch_compression,
                    old(self).batch_mode,
                    old(self)@,
                ),
                Err(e) => final(self).state is Closed && e is IOError && final(self).flushed@
                    == old(self).flushed@ && final(self).output() == old(self).output()
                    && final(self).unsaved() == old(self).unsaved(),
            },
    {
        // If partition boundary, reset batch_number, else increment batch_number
        let next_number: u32 = if is_partition_boundary {
            0
        } else {
            match self.batch_number.checked_add(1) {
                Some(next) => next,
                None => {
                    self.state = StorageState::Closed;
                    return Err(TarArchiveError::IOError(IOFailure::BatchNumberOverflow));
                },
            }
        };
        // Flush current batch archive (if exists)
        match self.flush_batch() {
            Ok(()) => {},
            Err(e) => {
                return Err(e);
            },
        }
        self.batch_number = next_number;
        Ok(())
    }
}

/// What `BatchTarFile::new` makes of its arguments: the scheme and the
/// compression level of the new archive, or the error.
pub open spec fn new_result(
    k: nat,
    l: nat,
    m: nat,
    d: nat,
    compression: Option<u32>,
    mode: Option<u32>,
) -> Result<(PartitionScheme, u32), TarArchiveError> {
    if mode matches Some(given) && given > MAX_MODE {
        Err(TarArchiveError::IOError(IOFailure::InvalidMode { mode: mode->0 }))
    } else {
        match partition_scheme(k, l, m, d) {
            Err(e) => Err(
                TarArchiveError::PathGenerator(PathGeneratorError::PartitionPathGenerator(e)),
            ),
            Ok(scheme) => match resolve_compression(compression) {
                Err(e) => Err(e),
                Ok(level) => Ok((scheme, level)),
            },
        }
    }
}

impl BatchTarFile {
    /// Create new `BatchTarFile` instance
    pub fn new(
        batch_size: u32,
        num_notes: u32,
        melody_length: u32,
        max_files: u32,
        partition_depth: u32,
        batch_compression: Option<u32>,
        batch_mode: Option<u32>,
    ) -> (r: Result<Self, TarArchiveError>)
        requires
            batch_size >= 1,
        ensures
            match new_result(
                num_notes as nat,
                melody_length as nat,
                max_files as nat,
                partition_depth as nat,
                batch_compression,
                batch_mode,
            ) {
                Ok((scheme, level)) => r matches Ok(file) && file.valid() && file.state_of()
                    is Open && file.scheme() == scheme && file.level() == level && file.mode()
                    == batch_mode && file.batch_size() == batch_size && file@ == (BatchModel {
                    partition: Seq::empty(),
                    batch_number: 0,
                    pending: Seq::empty(),
                    flushed: Seq::empty(),
                }) && file.output() == Seq::<u8>::empty() && file.unsaved() == Seq::<u8>::empty()
                    && !file.sealed(),
                Err(e) => r matches Err(f) && f == e,
            },
    {
        // Validate batch entries mode
        if let Some(mode) = batch_mode {
            if mode > MAX_MODE {
                return Err(TarArchiveError::IOError(IOFailure::InvalidMode { mode }));
            }
        }
        // Generate partition manager
        let path_generator = match PartitionPathGenerator::new(
            num_notes,
            melody_length,
            max_files,
            partition_depth,
        ) {
            Ok(path_generator) => path_generator,
            Err(e) => {
                return Err(
                    TarArchiveError::PathGenerator(PathGeneratorError::PartitionPathGenerator(e)),
                );
            },
        };
        // Resolve batch compression
        let batch_compression = match gen_compression(batch_compression) {
            Ok(level) => level,
            Err(e) => {
                return Err(e);
            },
        };
        let file = Self {
            archive: tar_builder(),
            batch_archive: TarArchive::new(MIDIHashPathGenerator),
            batch_compression,
            batch_mode,
            batch_count: 0,
            batch_size,
            batch_number: 0,
            partition: String::new(),
            path_generator,
            state: StorageState::Open,
            pending: Ghost(Seq::empty()),
            flushed: Ghost(Seq::empty()),
            taken: Ghost(Seq::empty()),
        };
        assert(file.output() =~= Seq::<u8>::empty());
        Ok(file)
    }
}

/// What appending a file does to a batched archive `before`, leaving `after`.
pub open spec fn append_outcome(
    before: BatchTarFile,
    after: BatchTarFile,
    r: Result<(), TarArchiveError>,
    file: BatchEntry,
) -> bool {
    &&& after.sealed() == before.sealed()
    &&& if before.state_of() is Closed {
        &&& r == Err::<(), TarArchiveError>(TarArchiveError::IOError(IOFailure::Closed))
        &&& after.state_of() is Closed
        &&& after@ == before@
        &&& after.output() == before.output()
        &&& after.unsaved() == before.unsaved()
    } else {
        match basename_for(before.scheme(), file.pitches) {
            Err(e) => {
                &&& r == Err::<(), TarArchiveError>(TarArchiveError::PathGenerator(e))
                &&& after.state_of() is Open
                &&& after@ == before@
                &&& after.output() == before.output()
                &&& after.unsaved() == before.unsaved()
            },
            Ok(basename) => {
                let room = can_make_room(
                    before.level(),
                    before.mode(),
                    before@,
                    before.batch_size(),
                    basename,
                );
                let fits = entry_image(
                    file_name(file.pitches),
                    resolve_mode(file.mode),
                    file.data,
                ) is Some;
                let in_place = appends_in_place(before@, before.batch_size(), basename);
                let written_out = pending_image(before.level(), before.mode(), before@);
                &&& r is Ok <==> room && fits
                &&& r is Ok ==> after.state_of() is Open && after@ == after_append(
                    before@,
                    before.batch_size(),
                    basename,
                    file,
                ) && after.unsaved() == before.unsaved() + if in_place {
                    Seq::<u8>::empty()
                } else {
                    written_out
                }
                &&& r matches Err(e) ==> after.state_of() is Closed && e is IOError
                    && after@.flushed == if room && !in_place {
                    after_flush(before@).flushed
                } else {
                    before@.flushed
                } && after.unsaved() == before.unsaved() + if room && !in_place {
                    written_out
                } else {
                    Seq::<u8>::empty()
                }
                &&& in_place ==> after.output() == before.output()
            },
        }
    }
}

/// What finishing does to a batched archive `before`, leaving `after`.
pub open spec fn finish_outcome(
    before: BatchTarFile,
    after: BatchTarFile,
    r: Result<(), TarArchiveError>,
) -> bool {
    if before.state_of() is Closed {
        &&& r is Ok
        &&& after@ == before@
        &&& after.output() == before.output()
        &&& after.unsaved() == before.unsaved()
        &&& after.sealed() == before.sealed()
    } else {
        &&& r is Ok <==> can_flush(before.level(), before.mode(), before@)
        &&& match r {
            Ok(()) => {
                &&& after@ == after_flush(before@)
                &&& after.sealed()
                &&& after.unsaved() == before.unsaved() + pending_image(
                    before.level(),
                    before.mode(),
                    before@,
                ) + zeros(1024)
            },
            Err(e) => {
                &&& e is IOError
                &&& !after.sealed()
                &&& after@.flushed == before@.flushed
                &&& after.output() == before.output()
                &&& after.unsaved() == before.unsaved()
            },
        }
    }
}

impl BatchTarFile {
    /// Takes out the bytes of the top-level archive written so far, for the
    /// caller to store.
    pub fn take_bytes(&mut self) -> (bytes: Vec<u8>)
        requires
            old(self).valid(),
        ensures
            final(self).valid(),
            bytes@ == old(self).unsaved(),
            in_blocks(bytes@),
            final(self).unsaved() == Seq::<u8>::empty(),
            final(self).output() == old(self).output(),
            final(self)@ == old(self)@,
            final(self).state_of() == old(self).state_of(),
            final(self).sealed() == old(self).sealed(),
            final(self).batch_size() == old(self).batch_size(),
            final(self).level() == old(self).level(),
            final(self).mode() == old(self).mode(),
            final(self).scheme() == old(self).scheme(),
    {
        let ghost total = self.output();
        let bytes = tar_take(&mut self.archive);
        self.taken = Ghost(total);
        assert(self.output() =~= total);
        bytes
    }

    /// Whether the archive is open or closed.
    pub fn state(&self) -> (state: StorageState)
        ensures
            state == self.state_of(),
    {
        self.state
    }
}

impl StorageBackend for BatchTarFile {
    closed spec fn valid(&self) -> bool {
        self.settled() && self.numbered()
    }

    open spec fn is_open(&self) -> bool {
        self.state_of() is Open
    }

    fn append_file(&mut self, mfile: MIDIFile, mode: Option<u32>) -> (r: Result<
        (),
        TarArchiveError,
    >)
        ensures
            final(self).batch_size() == old(self).batch_size(),
            final(self).level() == old(self).level(),
            final(self).mode() == old(self).mode(),
            final(self).scheme() == old(self).scheme(),
            append_outcome(
                *old(self),
                *final(self),
                r,
                BatchEntry { pitches: mfile.sequence@, data: mfile.data@, mode },
            ),
    {
        // Ensure archive is still open
        if self.state == StorageState::Closed {
            return Err(TarArchiveError::IOError(IOFailure::Closed));
        }
        let ghost file = BatchEntry { pitches: mfile.sequence@, data: mfile.data@, mode };
        let ghost before = self@;
        // Generate partition for MIDI file
        let partition = match self.path_generator.gen_basename_for_file(&mfile) {
            Ok(partition) => partition,
            Err(e) => {
                return Err(TarArchiveError::PathGenerator(e));
            },
        };
        if self.partition != partition {
            // First MIDI file or partition boundary: flush current batch
            // and reset counters
            match self.flush_and_init_batch(true) {
                Ok(()) => {},
                Err(e) => {
                    return Err(e);
                },
            }
            // Update partition
            self.partition = partition;
        } else if self.batch_count == self.batch_size {
            // Batch boundary: flush current batch, reset batch_count and
            // increment batch_number
            match self.flush_and_init_batch(false) {
                Ok(()) => {},
                Err(e) => {
                    return Err(e);
                },
            }
        }
        let ghost ready = self.pending@;
        assert(old(self).unsaved() + Seq::<u8>::empty() =~= old(self).unsaved());
        // Add file to batch archive and increment batch_count
        match self.batch_archive.append_file(mfile, mode) {
            Ok(()) => {
                self.pending = Ghost(ready.push(file));
                self.batch_count = self.batch_count + 1;
                proof {
                    assert(ready.push(file).drop_last() =~= ready);
                }
                Ok(())
            },
            Err(e) => {
                self.state = StorageState::Closed;
                Err(e)
            },
        }
    }

    fn finish(&mut self) -> (r: Result<(), TarArchiveError>)
        ensures
            final(self).batch_size() == old(self).batch_size(),
            final(self).level() == old(self).level(),
            final(self).mode() == old(self).mode(),
            final(self).scheme() == old(self).scheme(),
            finish_outcome(*old(self), *final(self), r),
    {
        match self.state {
            // If archive is still "open"
            StorageState::Open => {
                // Flush remaining batch
                match self.flush_batch() {
                    Ok(()) => {},
                    Err(e) => {
                        return Err(e);
                    },
                }
                // Write footer sections to top-level archive and close for writing
                self.state = StorageState::Closed;
                let ghost total = self.output();
                let _ = tar_finish(&mut self.archive);
                assert(self.output() =~= total + zeros(1024));
                Ok(())
            },
            StorageState::Closed => Ok(()),
        }
    }
}

/// What finishing a batched archive and handing out its bytes returns: a
/// closed archive gives the bytes that were not taken out; an open one
/// gives them followed by the entry of the pending batch and the end of
/// the archive, and fails exactly where the pending batch cannot be
/// written out.
pub open spec fn into_inner_outcome(
    before: BatchTarFile,
    r: Result<Vec<u8>, TarArchiveError>,
) -> bool {
    if before.state_of() is Closed {
        r matches Ok(bytes) && bytes@ == before.unsaved()
    } else {
        &&& r is Ok <==> can_flush(before.level(), before.mode(), before@)
        &&& match r {
            Ok(bytes) => bytes@ == before.unsaved() + pending_image(
                before.level(),
                before.mode(),
                before@,
            ) + zeros(1024),
            Err(e) => e is IOError,
        }
    }
}

impl IntoInner for BatchTarFile {
    /// Finishes the archive and returns the bytes of the top-level archive
    /// that were not taken out.
    fn into_inner(self) -> (r: Result<Vec<u8>, TarArchiveError>)
        ensures
            into_inner_outcome(self, r),
    {
        let mut archive = self;
        match archive.finish() {
            Ok(()) => Ok(archive.take_bytes()),
            Err(e) => Err(e),
        }
    }
}

/// Every batch written holds between one and `batch_size` files, all of
/// the batch's own partition; within a partition the batches are numbered
/// from 0 upwards in the order in which they were written; the batch that
/// is being filled holds at most `batch_size` files of the current
/// partition; and the bytes written are the entries of the batches, in
/// order, followed by the end of the archive once it is sealed.
pub proof fn lemma_batches(file: BatchTarFile)
    requires
        file.valid(),
    ensures
        file.batch_size() >= 1,
        file.level() <= MAX_COMPRESSION,
        batches_bounded(file.scheme(), file.batch_size(), file@.flushed),
        batches_numbered(file@.flushed),
        file@.pending.len() <= file.batch_size(),
        files_in_partition(file.scheme(), file@.pending, file@.partition),
        file.is_open() ==> !file.sealed() && file@.batch_number == next_number(
            file@.flushed,
            file@.partition,
        ),
        file.output() == outer_image(file.level(), file.mode(), file@.flushed) + if file.sealed() {
            zeros(1024)
        } else {
            Seq::empty()
        },
        in_blocks(file.unsaved()),
        in_blocks(file.output()),
{
}

/// Archives with the same settings that hold the same batches hold the
/// same bytes.
pub proof fn lemma_same_batches_same_output(a: BatchTarFile, b: BatchTarFile)
    requires
        a.valid(),
        b.valid(),
        a.level() == b.level(),
        a.mode() == b.mode(),
        a@.flushed == b@.flushed,
        a.sealed() == b.sealed(),
    ensures
        a.output() == b.output(),
{
    lemma_batches(a);
    lemma_batches(b);
}

/// With batches of one file, every batch written holds exactly one file.
pub proof fn lemma_single_file_batches(file: BatchTarFile)
    requires
        file.valid(),
        file.batch_size() == 1,
    ensures
        forall|i: int| 0 <= i < file@.flushed.len() ==> (#[trigger] file@.flushed[i]).files.len() == 1,
{
    lemma_batches(file);
}

/// A batch that continues the numbering and holds between one and
/// `batch_size` files of its partition keeps a run of batches in order.
pub proof fn lemma_push_batch(
    scheme: PartitionScheme,
    batch_size: nat,
    batches: Seq<Batch>,
    batch: Batch,
)
    requires
        batches_bounded(scheme, batch_size, batches),
        batches_numbered(batches),
        0 < batch.files.len() <= batch_size,
        files_in_partition(scheme, batch.files, batch.partition),
        batch.number == next_number(batches, batch.partition),
    ensures
        batches_bounded(scheme, batch_size, batches.push(batch)),
        batches_numbered(batches.push(batch)),
{
    let longer = batches.push(batch);
    assert forall|i: int| 0 <= i < longer.len() implies #[trigger] numbered_at(longer, i) by {
        if i < batches.len() {
            assert(longer.subrange(0, i) =~= batches.subrange(0, i));
            assert(longer[i] == batches[i]);
            assert(numbered_at(batches, i));
        } else {
            assert(longer.subrange(0, i) =~= batches);
        }
    }
    assert forall|i: int| 0 <= i < longer.len() implies 0 < (#[trigger] longer[i]).files.len()
        <= batch_size && files_in_partition(scheme, longer[i].files, longer[i].partition) by {
        if i < batches.len() {
            assert(longer[i] == batches[i]);
        }
    }
}

} // verus!

use crate::midi::{plain_path, MIDIFile};
use crate::storage::{IntoInner, PathGenerator, PathGeneratorError, StorageBackend};
use vstd::prelude::*;

verus! {

/// A `tar::Builder` that writes into a byte buffer.
#[verifier::external_body]
pub struct TarWriter {
    inner: tar::Builder<Vec<u8>>,
}

/// The error type of standard I/O.
#[verifier::external_type_specification]
#[verifier::external_body]
pub struct ExIoError(std::io::Error);

/// The bytes that a tar writer has put into its buffer.
pub uninterp spec fn written(archive: TarWriter) -> Seq<u8>;

/// Whether a tar writer has written its end-of-archive blocks.
pub uninterp spec fn finished(archive: TarWriter) -> bool;

/// The bytes of one archive entry (header, data, padding, and a long-name
/// entry before them where the path needs one), or `None` where the path
/// cannot stand in an archive.
pub uninterp spec fn entry_image(path: Seq<char>, mode: u32, data: Seq<u8>) -> Option<Seq<u8>>;

/// Size of the blocks that archives are written in.
pub const BLOCK_SIZE: usize = 512;

/// Whether bytes make up whole blocks.
pub open spec fn in_blocks(bytes: Seq<u8>) -> bool {
    bytes.len() % BLOCK_SIZE as nat == 0
}

/// `n` zero bytes.
pub open spec fn zeros(n: nat) -> Seq<u8> {
    Seq::new(n, |i: int| 0u8)
}

/// `tar::Builder::new` over an empty `Vec<u8>`: nothing is written yet and
/// the archive is not finished.
#[verifier::external_body]
pub(crate) fn tar_builder() -> (archive: TarWriter)
    ensures
        written(archive) == Seq::<u8>::empty(),
        !finished(archive),
{
    TarWriter { inner: tar::Builder::new(Vec::new()) }
}

/// `tar::Builder::append_data` with a fresh old-style header
/// (`tar::Header::new_old`) that carries the size of `data` and `mode`.
/// The path is made of digits, small letters, dots and `/` only, which
/// every host reads alike. The path is checked before anything is written,
/// and writing to a `Vec<u8>` does not fail: either the whole entry is
/// appended, or the call fails and the buffer is as before. Whether it
/// fails, and what it appends, depends on the path, the mode and the data
/// alone. What it appends is whole blocks of 512 bytes: one for the header
/// and the data filled up to whole blocks, after the blocks of a long-name
/// entry where the path needs one. The call does not panic.
#[verifier::external_body]
pub(crate) fn tar_append(
    archive: &mut TarWriter,
    path: &str,
    mode: u32,
    data: &[u8],
) -> (r: Result<(), std::io::Error>)
    requires
        plain_path(path@),
    ensures
        finished(*final(archive)) == finished(*old(archive)),
        match entry_image(path@, mode, data@) {
            Some(image) => r is Ok && written(*final(archive)) == written(*old(archive)) + image
                && in_blocks(image) && image.len() >= BLOCK_SIZE + data@.len(),
            None => r is Err && written(*final(archive)) == written(*old(archive)),
        },
    no_unwind
{
    let mut header = tar::Header::new_old();
    header.set_size(data.len() as u64);
    header.set_mode(mode);
    archive.inner.append_data(&mut header, path, data)
}

/// `tar::Builder::finish`: the first call appends the two zero blocks that
/// end an archive, later calls do nothing. Writing to a `Vec<u8>` does not
/// fail, and the call does not panic.
#[verifier::external_body]
pub(crate) fn tar_finish(archive: &mut TarWriter) -> (r: Result<(), std::io::Error>)
    ensures
        r is Ok,
        finished(*final(archive)),
        written(*final(archive)) == if finished(*old(archive)) {
            written(*old(archive))
        } else {
            written(*old(archive)) + zeros(1024)
        },
    no_unwind
{
    archive.inner.finish()
}

/// `std::mem::take` on the buffer behind `tar::Builder::get_mut`: hands out
/// the bytes written so far and leaves an empty buffer. The call does not
/// panic.
#[verifier::external_body]
pub(crate) fn tar_take(archive: &mut TarWriter) -> (bytes: Vec<u8>)
    ensures
        bytes@ == written(*old(archive)),
        written(*final(archive)) == Seq::<u8>::empty(),
        finished(*final(archive)) == finished(*old(archive)),
    no_unwind
{
    std::mem::take(archive.inner.get_mut())
}

/// `tar::Builder::get_ref`: the buffer with the bytes written so far.
#[verifier::external_body]
pub(crate) fn tar_get_ref(archive: &TarWriter) -> (bytes: &Vec<u8>)
    ensures
        bytes@ == written(*archive),
{
    archive.inner.get_ref()
}

/// `std::io::Error`'s rendering as text (`to_string`); nothing is claimed of it.
#[verifier::external_body]
pub(crate) fn io_error_message(e: &std::io::Error) -> (message: String) {
    e.to_string()
}

/// Whether storage backend is open, or has been closed for writing
#[derive(Debug, Clone, Copy, PartialEq, Eq, Structural)]
pub enum StorageState {
    /// Backend is open (can be written to)
    Open,
    /// Backend is closed (cannot be written to)
    Closed,
}

/// A failure below an archive.
#[derive(Debug, PartialEq, Eq)]
pub enum IOFailure {
    /// The archive is closed for writing and cannot take another file
    Closed,
    /// A file mode above `0o777`
    InvalidMode { mode: u32 },
    /// A partition holds more batches than can be numbered
    BatchNumberOverflow,
    /// The underlying writer refused the entry
    Writer { message: String },
}

/// Error type for `TarArchive`
#[derive(Debug, PartialEq, Eq)]
pub enum TarArchiveError {
    /// IO error
    IOError(IOFailure),
    /// PathGenerator error
    PathGenerator(PathGeneratorError),
    /// A compression level that is not between 0 and 9
    CompressionOutOfRange { level: u32 },
}

/// File mode of an entry where none is given: `rw-r--r--`.
pub const DEFAULT_MODE: u32 = 0o644;

/// The mode that an entry gets.
pub open spec fn resolve_mode(mode: Option<u32>) -> u32 {
    match mode {
        Some(mode) => mode,
        None => DEFAULT_MODE,
    }
}

/// What appending a file to an archive does to its bytes: `Ok` with the
/// bytes after the call, or the error and the bytes as they were.
pub open spec fn append_result<G: PathGenerator>(
    state: StorageState,
    generator: G,
    bytes: Seq<u8>,
    pitches: Seq<u8>,
    data: Seq<u8>,
    mode: Option<u32>,
) -> Result<Seq<u8>, Option<PathGeneratorError>> {
    if state is Closed {
        Err(None)
    } else {
        match generator.path_for(pitches) {
            Err(e) => Err(Some(e)),
            Ok(path) => match entry_image(path, resolve_mode(mode), data) {
                Some(image) => Ok(bytes + image),
                None => Err(None),
            },
        }
    }
}

/// Tar archive storage backend. Used by other storage backends as the
/// underlying storage object. It writes into a buffer of its own, which
/// `take_bytes` empties.
pub struct TarArchive<G: PathGenerator> {
    state: StorageState,
    archive: TarWriter,
    path_generator: G,
}

impl<G: PathGenerator> TarArchive<G> {
    #[verifier::type_invariant]
    spec fn well_formed(self) -> bool {
        &&& self.state is Open ==> !finished(self.archive)
        &&& in_blocks(written(self.archive))
    }

    /// Open or closed.
    pub closed spec fn state_of(&self) -> StorageState {
        self.state
    }

    /// The bytes written and not yet taken out.
    pub closed spec fn bytes(&self) -> Seq<u8> {
        written(self.archive)
    }

    /// The path generator.
    pub closed spec fn generator(&self) -> G {
        self.path_generator
    }

    /// Create new `TarArchive` instance
    pub fn new(path_generator: G) -> (archive: Self)
        ensures
            archive.state_of() is Open,
            archive.bytes() == Seq::<u8>::empty(),
            archive.generator() == path_generator,
    {
        Self { archive: tar_builder(), state: StorageState::Open, path_generator }
    }

    /// Whether the archive is open or closed.
    pub fn state(&self) -> (state: StorageState)
        ensures
            state == self.state_of(),
    {
        self.state
    }

    /// Acquires a reference to the underlying buffer
    pub fn get_ref(&self) -> (bytes: &Vec<u8>)
        ensures
            bytes@ == self.bytes(),
            in_blocks(bytes@),
    {
        proof {
            use_type_invariant(self);
        }
        tar_get_ref(&self.archive)
    }

    /// Acquires a reference to the path generator
    pub fn path_generator(&self) -> (generator: &G)
        ensures
            *generator == self.generator(),
    {
        &self.path_generator
    }

    /// Takes out the bytes written so far.
    pub fn take_bytes(&mut self) -> (bytes: Vec<u8>)
        ensures
            bytes@ == old(self).bytes(),
            in_blocks(bytes@),
            final(self).bytes() == Seq::<u8>::empty(),
            final(self).state_of() == old(self).state_of(),
            final(self).generator() == old(self).generator(),
    {
        proof {
            use_type_invariant(&*self);
        }
        tar_take(&mut self.archive)
    }

}

impl<G: PathGenerator> StorageBackend for TarArchive<G> {
    open spec fn valid(&self) -> bool {
        true
    }

    open spec fn is_open(&self) -> bool {
        self.state_of() is Open
    }

    /// Append MIDI file to the archive
    fn append_file(&mut self, mfile: MIDIFile, mode: Option<u32>) -> (r: Result<
        (),
        TarArchiveError,
    >)
        ensures
            final(self).state_of() == old(self).state_of(),
            final(self).generator() == old(self).generator(),
            in_blocks(old(self).bytes()),
            in_blocks(final(self).bytes()),
            r is Ok ==> final(self).bytes().len() >= old(self).bytes().len() + BLOCK_SIZE
                + mfile.data@.len(),
            match append_result(
                old(self).state_of(),
                old(self).generator(),
                old(self).bytes(),
                mfile.sequence@,
                mfile.data@,
                mode,
            ) {
                Ok(bytes) => r is Ok && final(self).bytes() == bytes,
                Err(Some(e)) => r == Err::<(), TarArchiveError>(TarArchiveError::PathGenerator(e))
                    && final(self).bytes() == old(self).bytes(),
                Err(None) => r matches Err(TarArchiveError::IOError(failure)) && (failure
                    is Closed <==> old(self).state_of() is Closed) && (failure is Writer
                    <==> old(self).state_of() is Open) && final(self).bytes() == old(self).bytes(),
            },
    {
        proof {
            use_type_invariant(&*self);
        }
        // Ensure archive is stil open
        if self.state == StorageState::Closed {
            return Err(TarArchiveError::IOError(IOFailure::Closed));
        }
        // Generate path from melody hash
        let path = match self.path_generator.gen_path_for_file(&mfile) {
            Ok(path) => path,
            Err(e) => {
                return Err(TarArchiveError::PathGenerator(e));
            },
        };
        // Set file permissions to provided value, or rw-r--r-- by default
        let mode = match mode {
            Some(mode) => mode,
            None => DEFAULT_MODE,
        };
        match tar_append(&mut self.archive, path.as_str(), mode, mfile.data.as_slice()) {
            Ok(()) => Ok(()),
            Err(e) => Err(
                TarArchiveError::IOError(IOFailure::Writer { message: io_error_message(&e) }),
            ),
        }
    }

    /// Writes the end of the archive and closes it for writing. Does
    /// nothing on a closed archive.
    fn finish(&mut self) -> (r: Result<(), TarArchiveError>)
        ensures
            r is Ok,
            final(self).state_of() is Closed,
            final(self).generator() == old(self).generator(),
            in_blocks(final(self).bytes()),
            final(self).bytes() == if old(self).state_of() is Open {
                old(self).bytes() + zeros(1024)
            } else {
                old(self).bytes()
            },
    {
        proof {
            use_type_invariant(&*self);
        }
        match self.state {
            StorageState::Open => {
                self.state = StorageState::Closed;
                // Write footer sections to archive and close for writing
                match tar_finish(&mut self.archive) {
                    Ok(()) => Ok(()),
                    Err(e) => Err(
                        TarArchiveError::IOError(
                            IOFailure::Writer { message: io_error_message(&e) },
                        ),
                    ),
                }
            },
            StorageState::Closed => Ok(()),
        }
    }

}

impl<G: PathGenerator> IntoInner for TarArchive<G> {
    /// Finishes the archive and returns the bytes that were not taken out.
    fn into_inner(self) -> (r: Result<Vec<u8>, TarArchiveError>)
        ensures
            r matches Ok(bytes) && in_blocks(bytes@) && bytes@ == if self.state_of() is Open {
                self.bytes() + zeros(1024)
            } else {
                self.bytes()
            },
    {
        let mut archive = self;
        match archive.finish() {
            Ok(()) => Ok(archive.take_bytes()),
            Err(e) => Err(e),
        }
    }
}

} // verus!

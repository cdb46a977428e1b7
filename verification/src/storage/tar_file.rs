use crate::midi::MIDIFile;
use crate::storage::tar_archive::{append_result, zeros, TarArchive, TarArchiveError};
use crate::storage::{IntoInner, PathGenerator, StorageBackend};
use vstd::prelude::*;

verus! {

/// Tar archive storage backend without compression. Use for datasets where
/// the size of the output is of no concern: every entry takes a header of
/// 512 bytes and at least 512 bytes of data.
pub struct TarFile<G: PathGenerator> {
    archive: TarArchive<G>,
}

impl<G: PathGenerator> TarFile<G> {
    /// The archive below.
    pub closed spec fn inner(&self) -> TarArchive<G> {
        self.archive
    }

    /// Create new `TarFile` instance
    pub fn new(path_generator: G) -> (file: Self)
        ensures
            file.inner().state_of() is Open,
            file.inner().bytes() == Seq::<u8>::empty(),
            file.inner().generator() == path_generator,
    {
        Self { archive: TarArchive::new(path_generator) }
    }

    /// Takes out the bytes written so far, for the caller to store.
    pub fn take_bytes(&mut self) -> (bytes: Vec<u8>)
        ensures
            bytes@ == old(self).inner().bytes(),
            final(self).inner().bytes() == Seq::<u8>::empty(),
            final(self).inner().state_of() == old(self).inner().state_of(),
            final(self).inner().generator() == old(self).inner().generator(),
    {
        self.archive.take_bytes()
    }
}

impl<G: PathGenerator> StorageBackend for TarFile<G> {
    open spec fn valid(&self) -> bool {
        true
    }

    open spec fn is_open(&self) -> bool {
        self.inner().state_of() is Open
    }

    fn append_file(&mut self, mfile: MIDIFile, mode: Option<u32>) -> (r: Result<
        (),
        TarArchiveError,
    >)
        ensures
            final(self).inner().state_of() == old(self).inner().state_of(),
            final(self).inner().generator() == old(self).inner().generator(),
            match append_result(
                old(self).inner().state_of(),
                old(self).inner().generator(),
                old(self).inner().bytes(),
                mfile.sequence@,
                mfile.data@,
                mode,
            ) {
                Ok(bytes) => r is Ok && final(self).inner().bytes() == bytes,
                Err(Some(e)) => r == Err::<(), TarArchiveError>(TarArchiveError::PathGenerator(e))
                    && final(self).inner().bytes() == old(self).inner().bytes(),
                Err(None) => r matches Err(TarArchiveError::IOError(failure)) && (failure
                    is Closed <==> old(self).inner().state_of() is Closed) && (failure
                    is Writer <==> old(self).inner().state_of() is Open) && final(self).inner().bytes() == old(self).inner().bytes(),
            },
    {
        self.archive.append_file(mfile, mode)
    }

    fn finish(&mut self) -> (r: Result<(), TarArchiveError>)
        ensures
            r is Ok,
            final(self).inner().generator() == old(self).inner().generator(),
            final(self).inner().bytes() == if old(self).inner().state_of() is Open {
                old(self).inner().bytes() + zeros(1024)
            } else {
                old(self).inner().bytes()
            },
    {
        self.archive.finish()
    }
}

impl<G: PathGenerator> IntoInner for TarFile<G> {
    fn into_inner(self) -> (r: Result<Vec<u8>, TarArchiveError>)
        ensures
            r matches Ok(bytes) && bytes@ == if self.inner().state_of() is Open {
                self.inner().bytes() + zeros(1024)
            } else {
                self.inner().bytes()
            },
    {
        self.archive.into_inner()
    }
}

} // verus!

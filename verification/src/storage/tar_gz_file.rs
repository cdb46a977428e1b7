use crate::midi::MIDIFile;
use crate::storage::tar_archive::{
    append_result, io_error_message, zeros, IOFailure, TarArchive, TarArchiveError,
};
use crate::storage::{IntoInner, PathGenerator, StorageBackend};
use std::io::Write;
use vstd::prelude::*;

verus! {

/// The gzip stream that holds `data`, compressed at `level`, or `None`
/// where the compressor fails.
pub uninterp spec fn gzip_image(level: u32, data: Seq<u8>) -> Option<Seq<u8>>;

/// Whether a gzip stream carries no time stamp: the four bytes of the
/// modification time in its header of ten bytes are zero.
pub open spec fn no_time_stamp(stream: Seq<u8>) -> bool {
    &&& stream.len() >= 10
    &&& stream[4] == 0
    &&& stream[5] == 0
    &&& stream[6] == 0
    &&& stream[7] == 0
}

/// `flate2::write::GzEncoder` over a `Vec<u8>`: `new` with the level,
/// `write_all` with the data, then `finish`. The stream starts with a
/// header of ten bytes that carries no time stamp, file name or host, and
/// the compressor works on the level and the data alone, so equal input
/// gives equal output.
#[verifier::external_body]
pub(crate) fn gzip(level: u32, data: &[u8]) -> (r: Result<Vec<u8>, std::io::Error>)
    requires
        level <= 9,
    ensures
        match gzip_image(level, data@) {
            Some(image) => r matches Ok(out) && out@ == image && no_time_stamp(image),
            None => r is Err,
        },
{
    let mut encoder = flate2::write::GzEncoder::new(Vec::new(), flate2::Compression::new(level));
    encoder.write_all(data)?;
    encoder.finish()
}

/// Compression level used where none is given.
pub const DEFAULT_COMPRESSION: u32 = 6;

/// Highest compression level.
pub const MAX_COMPRESSION: u32 = 9;

/// The level that `None` or a given level stands for, or the level that is out of range.
pub open spec fn resolve_compression(level: Option<u32>) -> Result<u32, TarArchiveError> {
    match level {
        None => Ok(DEFAULT_COMPRESSION),
        Some(level) => if level > MAX_COMPRESSION {
            Err(TarArchiveError::CompressionOutOfRange { level })
        } else {
            Ok(level)
        },
    }
}

/// Picks the compression level: the default where none is given, an error
/// where the one given is not between 0 and 9.
pub fn gen_compression(level: Option<u32>) -> (r: Result<u32, TarArchiveError>)
    ensures
        r == resolve_compression(level),
{
    match level {
        None => Ok(DEFAULT_COMPRESSION),
        Some(level) => {
            if level > MAX_COMPRESSION {
                Err(TarArchiveError::CompressionOutOfRange { level })
            } else {
                Ok(level)
            }
        },
    }
}

/// What `compress_archive` makes of the outcome of the compression.
pub open spec fn compressed_result(
    r: Result<Vec<u8>, TarArchiveError>,
    level: u32,
    bytes: Seq<u8>,
) -> bool {
    match gzip_image(level, bytes) {
        Some(image) => r matches Ok(out) && out@ == image && no_time_stamp(out@),
        None => r matches Err(TarArchiveError::IOError(IOFailure::Writer { .. })),
    }
}

/// Compresses a finished archive.
pub fn compress_archive(level: u32, bytes: &Vec<u8>) -> (r: Result<Vec<u8>, TarArchiveError>)
    requires
        level <= MAX_COMPRESSION,
    ensures
        compressed_result(r, level, bytes@),
{
    match gzip(level, bytes.as_slice()) {
        Ok(out) => Ok(out),
        Err(e) => Err(
            TarArchiveError::IOError(IOFailure::Writer { message: io_error_message(&e) }),
        ),
    }
}

/// Gzip-compressed tar archive storage backend. Use for larger datasets
/// where a smaller output is wanted; the archive is compressed as a whole
/// when it is handed out.
pub struct TarGzFile<G: PathGenerator> {
    archive: TarArchive<G>,
    compression_level: u32,
}

impl<G: PathGenerator> TarGzFile<G> {
    /// The archive below.
    pub closed spec fn inner(&self) -> TarArchive<G> {
        self.archive
    }

    /// The compression level.
    pub closed spec fn level(&self) -> u32 {
        self.compression_level
    }

    /// Create new `TarGzFile` instance. If no compression level is
    /// specified, the default level is used.
    pub fn new(path_generator: G, compression_level: Option<u32>) -> (r: Result<
        Self,
        TarArchiveError,
    >)
        ensures
            match resolve_compression(compression_level) {
                Ok(level) => r matches Ok(file) && file.valid() && file.level() == level
                    && file.inner().state_of() is Open && file.inner().bytes() == Seq::<
                    u8,
                >::empty() && file.inner().generator() == path_generator,
                Err(e) => r matches Err(f) && f == e,
            },
    {
        match gen_compression(compression_level) {
            Ok(level) => Ok(Self { archive: TarArchive::new(path_generator), compression_level: level }),
            Err(e) => Err(e),
        }
    }
}

impl<G: PathGenerator> StorageBackend for TarGzFile<G> {
    open spec fn valid(&self) -> bool {
        self.level() <= MAX_COMPRESSION
    }

    open spec fn is_open(&self) -> bool {
        self.inner().state_of() is Open
    }

    fn append_file(&mut self, mfile: MIDIFile, mode: Option<u32>) -> (r: Result<
        (),
        TarArchiveError,
    >)
        ensures
            final(self).level() == old(self).level(),
            final(self).inner().state_of() == old(self).inner().state_of(),
            final(self).inner().generator() == old(self).inner().generator(),
            match append_result(
                old(self).inner().state_of(),
                old(self).inner().generator(),
                old(self).inner().bytes(),
                mfile.sequence@,
                mfile.data@,
                mode,
            ) {
                Ok(bytes) => r is Ok && final(self).inner().bytes() == bytes,
                Err(Some(e)) => r == Err::<(), TarArchiveError>(TarArchiveError::PathGenerator(e))
                    && final(self).inner().bytes() == old(self).inner().bytes(),
                Err(None) => r matches Err(TarArchiveError::IOError(failure)) && (failure
                    is Closed <==> old(self).inner().state_of() is Closed) && (failure
                    is Writer <==> old(self).inner().state_of() is Open) && final(self).inner().bytes() == old(self).inner().bytes(),
            },
    {
        self.archive.append_file(mfile, mode)
    }

    fn finish(&mut self) -> (r: Result<(), TarArchiveError>)
        ensures
            r is Ok,
            final(self).level() == old(self).level(),
            final(self).inner().generator() == old(self).inner().generator(),
            final(self).inner().bytes() == if old(self).inner().state_of() is Open {
                old(self).inner().bytes() + zeros(1024)
            } else {
                old(self).inner().bytes()
            },
    {
        self.archive.finish()
    }
}

impl<G: PathGenerator> IntoInner for TarGzFile<G> {
    /// Finishes the archive and returns it as one gzip stream.
    fn into_inner(self) -> (r: Result<Vec<u8>, TarArchiveError>)
        ensures
            compressed_result(
                r,
                self.level(),
                if self.inner().state_of() is Open {
                    self.inner().bytes() + zeros(1024)
                } else {
                    self.inner().bytes()
                },
            ),
    {
        let level = self.compression_level;
        match self.archive.into_inner() {
            Ok(bytes) => compress_archive(level, &bytes),
            Err(e) => Err(e),
        }
    }
}

} // verus!

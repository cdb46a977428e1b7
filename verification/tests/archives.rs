use atm::midi::MIDIFile;
use atm::storage::batch_tar_file::BatchTarFile;
use atm::storage::tar_archive::{IOFailure, StorageState, TarArchive, TarArchiveError};
use atm::storage::tar_file::TarFile;
use atm::storage::tar_gz_file::{compress_archive, gen_compression, TarGzFile};
use atm::storage::{
    IntoInner, MIDIHashPathGenerator, PartitionPathGenerator, PartitionPathGeneratorError,
    PathGeneratorError, StorageBackend,
};
use atm::utils::gen_sequences;
use std::io::Read;

/// Stand-in for the serialized file of a melody.
fn file(pitches: &[u8]) -> MIDIFile {
    let mut data = vec![0x4d, 0x54, 0x68, 0x64, 0, 0, 0, 6];
    data.extend_from_slice(pitches);
    MIDIFile::new(pitches.to_vec(), data)
}

/// Path, mode and content of each entry of a tar archive.
fn entries(bytes: &[u8]) -> Vec<(String, u32, Vec<u8>)> {
    let mut archive = tar::Archive::new(bytes);
    let mut all = Vec::new();
    for entry in archive.entries().unwrap() {
        let mut entry = entry.unwrap();
        let path = entry.path().unwrap().to_str().unwrap().to_string();
        let mode = entry.header().mode().unwrap();
        assert_eq!(entry.header().mtime().unwrap(), 0);
        let mut content = Vec::new();
        entry.read_to_end(&mut content).unwrap();
        assert_eq!(entry.header().size().unwrap(), content.len() as u64);
        all.push((path, mode, content));
    }
    all
}

fn gunzip(bytes: &[u8]) -> Vec<u8> {
    let mut decoder = flate2::read::GzDecoder::new(bytes);
    let mut out = Vec::new();
    decoder.read_to_end(&mut out).unwrap();
    out
}

fn ends_with_two_zero_blocks(bytes: &[u8]) -> bool {
    bytes.len() >= 1024 && bytes[bytes.len() - 1024..].iter().all(|b| *b == 0)
}

#[test]
fn tar_file_with_one_melody() {
    let mut backend = TarFile::new(MIDIHashPathGenerator);
    let mfile = file(&[60]);
    let size = mfile.gen_size();
    let data = mfile.data.clone();
    backend.append_file(mfile, None).unwrap();
    let bytes = backend.into_inner().unwrap();
    // header, one block of data, end of archive
    assert_eq!(bytes.len(), 512 + 512 + 1024);
    assert!(ends_with_two_zero_blocks(&bytes));
    let all = entries(&bytes);
    assert_eq!(all.len(), 1);
    assert_eq!(all[0].0, "60.mid");
    assert_eq!(all[0].1, 0o644);
    assert_eq!(all[0].2.len(), size);
    assert_eq!(all[0].2, data);
}

#[test]
fn entry_mode_is_the_one_given() {
    let mut backend = TarArchive::new(MIDIHashPathGenerator);
    backend.append_file(file(&[60, 62]), Some(0o600)).unwrap();
    backend.append_file(file(&[62, 60]), None).unwrap();
    let all = entries(&backend.into_inner().unwrap());
    assert_eq!(all.len(), 2);
    assert_eq!((all[0].0.as_str(), all[0].1), ("6062.mid", 0o600));
    assert_eq!((all[1].0.as_str(), all[1].1), ("6260.mid", 0o644));
}

#[test]
fn archive_is_written_in_blocks() {
    let mut backend = TarArchive::new(MIDIHashPathGenerator);
    assert_eq!(backend.state(), StorageState::Open);
    let mut total = 0;
    for pitch in 60u8..70 {
        backend.append_file(file(&[pitch, pitch]), None).unwrap();
        let bytes = backend.take_bytes();
        assert_eq!(bytes.len(), 1024);
        total += bytes.len();
    }
    assert_eq!(backend.take_bytes().len(), 0);
    backend.finish().unwrap();
    assert_eq!(backend.state(), StorageState::Closed);
    let end = backend.take_bytes();
    assert_eq!(end, vec![0u8; 1024]);
    assert_eq!(total, 10240);
}

#[test]
fn taking_bytes_piece_by_piece_gives_the_same_archive() {
    let melodies: Vec<Vec<u8>> = vec![vec![60, 62], vec![62, 64], vec![64, 60]];
    let mut whole = TarFile::new(MIDIHashPathGenerator);
    let mut pieces = TarFile::new(MIDIHashPathGenerator);
    let mut streamed = Vec::new();
    for melody in &melodies {
        whole.append_file(file(melody), None).unwrap();
        pieces.append_file(file(melody), None).unwrap();
        streamed.extend(pieces.take_bytes());
    }
    pieces.finish().unwrap();
    streamed.extend(pieces.take_bytes());
    assert_eq!(streamed, whole.into_inner().unwrap());
}

#[test]
fn buffer_shows_what_was_written() {
    let mut backend = TarArchive::new(MIDIHashPathGenerator);
    assert_eq!(backend.get_ref().len(), 0);
    backend.append_file(file(&[60]), None).unwrap();
    assert_eq!(backend.get_ref().len(), 1024);
    assert_eq!(&backend.get_ref()[..6], b"60.mid");
    let seen = backend.get_ref().clone();
    assert_eq!(backend.take_bytes(), seen);
    assert_eq!(backend.get_ref().len(), 0);
}

#[test]
fn append_after_finish_fails() {
    let mut backend = TarArchive::new(MIDIHashPathGenerator);
    backend.append_file(file(&[60]), None).unwrap();
    backend.finish().unwrap();
    assert_eq!(
        backend.append_file(file(&[62]), None),
        Err(TarArchiveError::IOError(IOFailure::Closed))
    );
    let mut file_backend = TarFile::new(MIDIHashPathGenerator);
    file_backend.finish().unwrap();
    assert_eq!(
        file_backend.append_file(file(&[62]), None),
        Err(TarArchiveError::IOError(IOFailure::Closed))
    );
}

#[test]
fn finish_twice_changes_nothing() {
    let mut once = TarArchive::new(MIDIHashPathGenerator);
    let mut thrice = TarArchive::new(MIDIHashPathGenerator);
    once.append_file(file(&[60, 64]), None).unwrap();
    thrice.append_file(file(&[60, 64]), None).unwrap();
    assert_eq!(once.finish(), Ok(()));
    assert_eq!(thrice.finish(), Ok(()));
    assert_eq!(thrice.finish(), Ok(()));
    assert_eq!(thrice.finish(), Ok(()));
    let bytes = thrice.into_inner().unwrap();
    assert_eq!(bytes, once.into_inner().unwrap());
    assert_eq!(bytes.len(), 2048);
}

#[test]
fn path_generator_errors_leave_the_archive_as_it_was() {
    let generator = PartitionPathGenerator::new(8, 12, 4096, 2).unwrap();
    let mut backend = TarArchive::new(generator);
    assert_eq!(backend.path_generator().partition_length(), 4);
    assert!(backend.get_ref().is_empty());
    assert_eq!(
        backend.append_file(file(&[60, 62]), None),
        Err(TarArchiveError::PathGenerator(PathGeneratorError::PartitionPathGenerator(
            PartitionPathGeneratorError::MelodyLengthMismatch { expected: 12, observed: 2 }
        )))
    );
    assert_eq!(backend.state(), StorageState::Open);
    assert_eq!(backend.take_bytes().len(), 0);
    backend.append_file(file(&[60, 60, 60, 60, 64, 67, 71, 72, 62, 61, 64, 64]), None).unwrap();
    let all = entries(&backend.into_inner().unwrap());
    assert_eq!(all.len(), 1);
    assert_eq!(all[0].0, "60606060/64677172/606060606467717262616464.mid");
}

#[test]
fn long_paths_are_kept() {
    // 60 notes give a name of 124 characters, more than a header holds
    let pitches = vec![61u8; 60];
    let mut backend = TarArchive::new(MIDIHashPathGenerator);
    backend.append_file(file(&pitches), None).unwrap();
    let bytes = backend.into_inner().unwrap();
    let all = entries(&bytes);
    assert_eq!(all.len(), 1);
    assert_eq!(all[0].0, format!("{}.mid", "61".repeat(60)));
    assert_eq!(bytes.len() % 512, 0);
}

#[test]
fn empty_melody_is_named_by_the_extension() {
    let mut backend = TarArchive::new(MIDIHashPathGenerator);
    backend.append_file(file(&[]), None).unwrap();
    let all = entries(&backend.into_inner().unwrap());
    assert_eq!(all[0].0, ".mid");
}

#[test]
fn tar_gz_file_holds_the_same_archive() {
    let melodies: Vec<Vec<u8>> = vec![vec![60, 62, 64], vec![62, 64, 60], vec![64, 60, 62]];
    let mut plain = TarFile::new(MIDIHashPathGenerator);
    let mut packed = TarGzFile::new(MIDIHashPathGenerator, None).unwrap();
    for melody in &melodies {
        plain.append_file(file(melody), None).unwrap();
        packed.append_file(file(melody), None).unwrap();
    }
    packed.finish().unwrap();
    assert_eq!(
        packed.append_file(file(&[60, 60, 60]), None),
        Err(TarArchiveError::IOError(IOFailure::Closed))
    );
    let tar_bytes = plain.into_inner().unwrap();
    let gz_bytes = packed.into_inner().unwrap();
    assert_ne!(gz_bytes, tar_bytes);
    assert_eq!(tar_bytes.len() % 512, 0);
    assert!(gz_bytes.len() < tar_bytes.len());
    assert_eq!(&gz_bytes[..4], &[0x1f, 0x8b, 8, 0]);
    // no time stamp
    assert_eq!(&gz_bytes[4..8], &[0, 0, 0, 0]);
    assert_eq!(gunzip(&gz_bytes), tar_bytes);
}

#[test]
fn compression_level_is_checked() {
    assert_eq!(gen_compression(None), Ok(6));
    assert_eq!(gen_compression(Some(0)), Ok(0));
    assert_eq!(gen_compression(Some(9)), Ok(9));
    assert_eq!(
        gen_compression(Some(10)),
        Err(TarArchiveError::CompressionOutOfRange { level: 10 })
    );
    assert!(matches!(
        TarGzFile::new(MIDIHashPathGenerator, Some(12)),
        Err(TarArchiveError::CompressionOutOfRange { level: 12 })
    ));
    assert!(TarGzFile::new(MIDIHashPathGenerator, Some(9)).is_ok());
    let data = vec![7u8; 4096];
    let stored = compress_archive(0, &data).unwrap();
    let best = compress_archive(9, &data).unwrap();
    assert!(best.len() < stored.len());
    assert_eq!(gunzip(&stored), data);
    assert_eq!(gunzip(&best), data);
    assert_eq!(compress_archive(6, &data), compress_archive(6, &data));
}

/// Runs every melody of `length` over `notes` through a batched archive.
fn batch_run(notes: &Vec<u8>, length: u32, max_files: u32, depth: u32, batch_size: u32) -> Vec<u8> {
    let mut backend =
        BatchTarFile::new(batch_size, notes.len() as u32, length, max_files, depth, None, None)
            .unwrap();
    let mut out = Vec::new();
    let mut melodies = gen_sequences(notes, length);
    while let Some(melody) = melodies.next() {
        backend.append_file(file(&melody), None).unwrap();
        out.extend(backend.take_bytes());
    }
    backend.finish().unwrap();
    assert_eq!(backend.state(), StorageState::Closed);
    out.extend(backend.into_inner().unwrap());
    out
}

fn is_batch_name(path: &str) -> Option<(String, u32)> {
    let (partition, name) = match path.rfind('/') {
        Some(at) => (&path[..at], &path[at + 1..]),
        None => ("", path),
    };
    if !partition.chars().all(|c| c.is_ascii_digit()) {
        return None;
    }
    let number = name.strip_prefix("batch")?.strip_suffix(".tar.gz")?;
    if number.is_empty() || !number.chars().all(|c| c.is_ascii_digit()) {
        return None;
    }
    Some((partition.to_string(), number.parse().ok()?))
}

#[test]
fn batches_of_two_in_partitions_of_three() {
    let notes: Vec<u8> = vec![60, 62, 64];
    let bytes = batch_run(&notes, 4, 4, 1, 2);
    assert!(ends_with_two_zero_blocks(&bytes));
    let outer = entries(&bytes);
    // 27 partitions of 3 files, each in batches of 2 and 1
    assert_eq!(outer.len(), 54);
    let mut files = Vec::new();
    let mut last: Option<(String, u32)> = None;
    for (path, mode, payload) in &outer {
        assert_eq!(*mode, 0o644);
        let (partition, number) = is_batch_name(path).unwrap();
        assert_eq!(partition.len(), 6);
        match &last {
            Some((before, n)) if *before == partition => assert_eq!(number, n + 1),
            _ => assert_eq!(number, 0),
        }
        let inner_bytes = gunzip(payload);
        assert!(ends_with_two_zero_blocks(&inner_bytes));
        let inner = entries(&inner_bytes);
        assert_eq!(inner.len(), if number == 0 { 2 } else { 1 });
        for (name, inner_mode, _) in &inner {
            assert_eq!(*inner_mode, 0o644);
            // flat names, and the leading notes are those of the partition
            assert!(!name.contains('/'));
            assert!(name.ends_with(".mid"));
            assert_eq!(&name[..6], partition);
            files.push(name.clone());
        }
        last = Some((partition, number));
    }
    // every melody once, in the order of the enumeration
    let mut expected = Vec::new();
    let mut melodies = gen_sequences(&notes, 4);
    while let Some(melody) = melodies.next() {
        expected.push(file(&melody).gen_file_name());
    }
    assert_eq!(files.len(), 81);
    assert_eq!(files, expected);
    assert_eq!(outer[0].0, "606060/batch0.tar.gz");
    assert_eq!(outer[1].0, "606060/batch1.tar.gz");
    assert_eq!(outer[53].0, "646464/batch1.tar.gz");
}

#[test]
fn same_input_gives_the_same_bytes() {
    let notes: Vec<u8> = vec![60, 62, 64];
    assert_eq!(batch_run(&notes, 4, 4, 1, 2), batch_run(&notes, 4, 4, 1, 2));
    assert_ne!(batch_run(&notes, 4, 4, 1, 2), batch_run(&notes, 4, 4, 1, 3));
}

#[test]
fn batches_of_one_hold_one_file() {
    let notes: Vec<u8> = vec![60, 62];
    let outer = entries(&batch_run(&notes, 3, 2, 1, 1));
    assert_eq!(outer.len(), 8);
    for (_, _, payload) in &outer {
        assert_eq!(entries(&gunzip(payload)).len(), 1);
    }
    let names: Vec<&str> = outer.iter().map(|e| e.0.as_str()).collect();
    assert_eq!(
        names,
        vec![
            "6060/batch0.tar.gz",
            "6060/batch1.tar.gz",
            "6062/batch0.tar.gz",
            "6062/batch1.tar.gz",
            "6260/batch0.tar.gz",
            "6260/batch1.tar.gz",
            "6262/batch0.tar.gz",
            "6262/batch1.tar.gz",
        ]
    );
}

#[test]
fn flat_layout_has_no_leading_separator() {
    // 2^3 melodies fit into one directory
    let notes: Vec<u8> = vec![60, 62];
    let outer = entries(&batch_run(&notes, 3, 4096, 2, 3));
    let names: Vec<&str> = outer.iter().map(|e| e.0.as_str()).collect();
    assert_eq!(names, vec!["batch0.tar.gz", "batch1.tar.gz", "batch2.tar.gz"]);
    let sizes: Vec<usize> = outer.iter().map(|e| entries(&gunzip(&e.2)).len()).collect();
    assert_eq!(sizes, vec![3, 3, 2]);
}

#[test]
fn one_note_gives_one_entry() {
    let outer = entries(&batch_run(&vec![60], 5, 4096, 1, 25));
    assert_eq!(outer.len(), 1);
    assert_eq!(outer[0].0, "batch0.tar.gz");
    let inner = entries(&gunzip(&outer[0].2));
    assert_eq!(inner.len(), 1);
    assert_eq!(inner[0].0, "6060606060.mid");
}

#[test]
fn partition_boundary_flushes_a_partial_batch() {
    let mut backend = BatchTarFile::new(3, 2, 3, 2, 1, None, Some(0o600)).unwrap();
    // two files of partition 6060, then one of 6062
    backend.append_file(file(&[60, 60, 60]), None).unwrap();
    backend.append_file(file(&[60, 60, 62]), None).unwrap();
    assert_eq!(backend.take_bytes().len(), 0);
    backend.append_file(file(&[60, 62, 60]), None).unwrap();
    let first = entries(&backend.take_bytes());
    assert_eq!(first.len(), 1);
    assert_eq!(first[0].0, "6060/batch0.tar.gz");
    assert_eq!(first[0].1, 0o600);
    assert_eq!(entries(&gunzip(&first[0].2)).len(), 2);
    backend.finish().unwrap();
    let rest = backend.take_bytes();
    let second = entries(&rest);
    assert_eq!(second.len(), 1);
    // the number starts again in the new partition
    assert_eq!(second[0].0, "6062/batch0.tar.gz");
    assert!(ends_with_two_zero_blocks(&rest));
}

#[test]
fn batched_archive_reports_its_errors() {
    assert_eq!(
        BatchTarFile::new(25, 8, 12, 4096, 2, None, Some(0o1000)).err(),
        Some(TarArchiveError::IOError(IOFailure::InvalidMode { mode: 0o1000 }))
    );
    assert!(BatchTarFile::new(25, 8, 12, 4096, 2, None, Some(0o777)).is_ok());
    assert_eq!(
        BatchTarFile::new(25, 8, 12, 4096, 2, Some(10), None).err(),
        Some(TarArchiveError::CompressionOutOfRange { level: 10 })
    );
    assert_eq!(
        BatchTarFile::new(25, 3, 3, 4096, 4, None, None).err(),
        Some(TarArchiveError::PathGenerator(PathGeneratorError::PartitionPathGenerator(
            PartitionPathGeneratorError::PartitionDepthLongerThanMelody {
                partition_depth: 4,
                melody_length: 3,
            }
        )))
    );
    assert_eq!(
        BatchTarFile::new(25, 2, 13, 1, 3, None, None).err(),
        Some(TarArchiveError::PathGenerator(PathGeneratorError::PartitionPathGenerator(
            PartitionPathGeneratorError::PartitionsLongerThanMelody {
                melody_length: 13,
                partition_depth: 3,
                partition_length: 5,
            }
        )))
    );
    let mut backend = BatchTarFile::new(2, 3, 4, 4, 1, None, None).unwrap();
    assert_eq!(
        backend.append_file(file(&[60, 62]), None),
        Err(TarArchiveError::PathGenerator(PathGeneratorError::PartitionPathGenerator(
            PartitionPathGeneratorError::MelodyLengthMismatch { expected: 4, observed: 2 }
        )))
    );
    // the archive is still open
    backend.append_file(file(&[60, 62, 64, 60]), None).unwrap();
    assert_eq!(backend.finish(), Ok(()));
    assert_eq!(
        backend.append_file(file(&[60, 62, 64, 60]), None),
        Err(TarArchiveError::IOError(IOFailure::Closed))
    );
}

#[test]
fn finishing_a_batched_archive_twice_changes_nothing() {
    let mut backend = BatchTarFile::new(2, 3, 4, 4, 1, None, None).unwrap();
    backend.append_file(file(&[60, 62, 64, 60]), None).unwrap();
    assert_eq!(backend.finish(), Ok(()));
    let bytes = backend.take_bytes();
    assert_eq!(entries(&bytes).len(), 1);
    assert_eq!(backend.finish(), Ok(()));
    assert_eq!(backend.finish(), Ok(()));
    assert_eq!(backend.take_bytes().len(), 0);
    assert_eq!(backend.into_inner().unwrap().len(), 0);
}

#[test]
fn empty_batched_archive_is_only_its_end() {
    let backend = BatchTarFile::new(2, 3, 4, 4, 1, None, None).unwrap();
    assert_eq!(backend.into_inner().unwrap(), vec![0u8; 1024]);
}

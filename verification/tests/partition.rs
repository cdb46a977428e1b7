use atm::batched::{flush_after_push, flush_before_push, gen_batch_number, gen_partition_size, gen_path};
use atm::directives::partition::PartitionDirective;
use atm::cli::PartitionArgs;
use atm::midi::MIDIFile;
use atm::storage::{
    MIDIHashPathGenerator, PartitionPathGenerator, PartitionPathGeneratorError, PathGenerator,
    PathGeneratorError,
};
use atm::utils::{checked_pow, gen_num_melodies, gen_sequences};

fn file(pitches: &[u8]) -> MIDIFile {
    MIDIFile::new(pitches.to_vec(), vec![0x4d, 0x54, 0x68, 0x64])
}

#[test]
#[should_panic]
fn test_partition_depth_melody_length() {
    // Fails because partition depth must not exceed the length of the
    // melodies: each partition branch must contain at least one note.
    let _path_generator = PartitionPathGenerator::new(3, 3, 4096, 4).unwrap();
}

#[test]
#[should_panic]
fn test_melody_length_match() {
    let path_generator = PartitionPathGenerator::new(4, 12, 4096, 2).unwrap();
    // C:4, D:5, G:7
    let mfile = file(&[60, 74, 103]);
    // Fails because melody isn't 12 notes
    path_generator.gen_path_for_file(&mfile).unwrap();
}

#[test]
fn depth_longer_than_melody_is_reported() {
    let r = PartitionPathGenerator::new(3, 3, 4096, 4);
    assert_eq!(
        r.err(),
        Some(PartitionPathGeneratorError::PartitionDepthLongerThanMelody {
            partition_depth: 4,
            melody_length: 3,
        })
    );
}

#[test]
fn melody_length_mismatch_is_reported() {
    let path_generator = PartitionPathGenerator::new(4, 12, 4096, 2).unwrap();
    let r = path_generator.gen_path_for_file(&file(&[60, 74, 103]));
    assert_eq!(
        r,
        Err(PathGeneratorError::PartitionPathGenerator(
            PartitionPathGeneratorError::MelodyLengthMismatch { expected: 12, observed: 3 }
        ))
    );
    let r = path_generator.gen_basename_for_file(&file(&[60]));
    assert_eq!(
        r,
        Err(PathGeneratorError::PartitionPathGenerator(
            PartitionPathGeneratorError::MelodyLengthMismatch { expected: 12, observed: 1 }
        ))
    );
}

#[test]
fn partitions_longer_than_melody_is_reported() {
    // 8^p >= 2^13 needs p = 5, and 3 * 5 > 13
    let r = PartitionPathGenerator::new(2, 13, 1, 3);
    assert_eq!(
        r.err(),
        Some(PartitionPathGeneratorError::PartitionsLongerThanMelody {
            melody_length: 13,
            partition_depth: 3,
            partition_length: 5,
        })
    );
    assert_eq!(
        PartitionPathGenerator::gen_partition_length(2, 13, 1, 3),
        Err(PartitionPathGeneratorError::PartitionsLongerThanMelody {
            melody_length: 13,
            partition_depth: 3,
            partition_length: 5,
        })
    );
}

#[test]
fn eight_notes_twelve_long_depth_two() {
    let generator = PartitionPathGenerator::new(8, 12, 4096, 2).unwrap();
    assert_eq!(generator.melody_length(), 12);
    assert_eq!(generator.partition_depth(), 2);
    assert_eq!(generator.partition_length(), 4);
    let mfile = file(&[60, 60, 60, 60, 64, 67, 71, 72, 62, 61, 64, 64]);
    assert_eq!(mfile.gen_hash(), "606060606467717262616464");
    assert_eq!(generator.gen_basename_for_file(&mfile).unwrap(), "60606060/64677172");
    assert_eq!(
        generator.gen_path_for_file(&mfile).unwrap(),
        "60606060/64677172/606060606467717262616464.mid"
    );
    assert_eq!(PartitionPathGenerator::gen_partition_length(8, 12, 4096, 2), Ok(4));
}

#[test]
fn nine_notes_thirteen_long_depth_three() {
    let generator = PartitionPathGenerator::new(9, 13, 4096, 3).unwrap();
    assert_eq!(generator.partition_length(), 4);
    assert_eq!(generator.partition_depth(), 3);
    assert_eq!(PartitionPathGenerator::gen_partition_length(9, 13, 4096, 3), Ok(4));
}

#[test]
fn few_melodies_give_a_flat_layout() {
    // 2^8 = 256 melodies fit into one directory of 4096
    let generator = PartitionPathGenerator::new(2, 8, 4096, 2).unwrap();
    assert_eq!(generator.partition_depth(), 1);
    assert_eq!(generator.partition_length(), 0);
    let mfile = file(&[60, 62, 60, 62, 60, 62, 60, 62]);
    assert_eq!(generator.gen_basename_for_file(&mfile).unwrap(), "");
    assert_eq!(generator.gen_path_for_file(&mfile).unwrap(), "6062606260626062.mid");
}

#[test]
fn as_many_melodies_as_files_is_still_flat() {
    // 4^6 = 4096
    let generator = PartitionPathGenerator::new(4, 6, 4096, 2).unwrap();
    assert_eq!(generator.partition_depth(), 1);
    assert_eq!(generator.partition_length(), 0);
    // 4^7 = 16384 is more
    let generator = PartitionPathGenerator::new(4, 7, 4096, 2).unwrap();
    assert_eq!(generator.partition_depth(), 2);
    assert_eq!(generator.partition_length(), 1);
}

#[test]
fn one_note_gives_one_melody_and_no_partition() {
    let generator = PartitionPathGenerator::new(1, 20, 1, 3).unwrap();
    assert_eq!(generator.partition_depth(), 1);
    assert_eq!(generator.partition_length(), 0);
    let pitches = vec![60u8; 20];
    let mfile = file(&pitches);
    assert_eq!(generator.gen_basename_for_file(&mfile).unwrap(), "");
    let mut melodies = gen_sequences(&vec![60u8], 20);
    assert_eq!(melodies.next(), Some(pitches));
    assert_eq!(melodies.next(), None);
    assert_eq!(gen_num_melodies(1, 20), 1);
}

#[test]
fn partitions_may_take_in_the_whole_melody() {
    // 4^p >= 2^4 needs p = 2, and 2 * 2 is the melody length
    let generator = PartitionPathGenerator::new(2, 4, 1, 2).unwrap();
    assert_eq!(generator.partition_depth(), 2);
    assert_eq!(generator.partition_length(), 2);
    let mfile = file(&[60, 62, 62, 60]);
    assert_eq!(generator.gen_path_for_file(&mfile).unwrap(), "6062/6260/60626260.mid");
}

#[test]
fn depth_zero_gives_an_empty_basename() {
    let generator = PartitionPathGenerator::new(8, 12, 4096, 0).unwrap();
    assert_eq!(generator.partition_depth(), 0);
    let mfile = file(&[60, 60, 60, 60, 64, 67, 71, 72, 62, 61, 64, 64]);
    assert_eq!(generator.gen_basename_for_file(&mfile).unwrap(), "");
    assert_eq!(
        generator.gen_path_for_file(&mfile).unwrap(),
        "606060606467717262616464.mid"
    );
}

#[test]
fn pitches_are_rendered_with_two_digits() {
    let mfile = file(&[0, 5, 60, 99]);
    assert_eq!(mfile.gen_hash(), "00056099");
    assert_eq!(mfile.gen_file_name(), "00056099.mid");
    assert_eq!(mfile.gen_size(), 4);
    assert_eq!(MIDIHashPathGenerator.gen_path_for_file(&mfile).unwrap(), "00056099.mid");
    let high = file(&[100, 127]);
    assert_eq!(high.gen_hash(), "100127");
}

#[test]
fn no_partition_holds_more_than_max_files() {
    let cases: [(u32, u32, u32, u32); 5] = [(3, 4, 4, 1), (3, 5, 9, 2), (4, 4, 16, 1), (2, 9, 7, 3), (5, 3, 5, 1)];
    let pitches: Vec<u8> = vec![60, 62, 64, 65, 67];
    for (k, l, m, d) in cases {
        let notes: Vec<u8> = pitches[..k as usize].to_vec();
        let generator = PartitionPathGenerator::new(k, l, m, d).unwrap();
        let mut melodies = gen_sequences(&notes, l);
        let mut partition = String::new();
        let mut in_partition: u32 = 0;
        let mut seen: Vec<String> = Vec::new();
        while let Some(melody) = melodies.next() {
            let basename = generator.gen_basename_for_file(&file(&melody)).unwrap();
            if basename != partition {
                assert!(in_partition <= m);
                // a partition that was left does not come back
                assert!(!seen.contains(&basename));
                seen.push(basename.clone());
                in_partition = 0;
                partition = basename;
            }
            in_partition += 1;
        }
        assert!(in_partition <= m);
    }
}

#[test]
fn partition_size_and_path_of_a_hash() {
    assert_eq!(gen_partition_size(8, 12, 4096, 2), 4);
    assert_eq!(gen_partition_size(9, 13, 4096, 3), 4);
    assert_eq!(gen_partition_size(2, 13, 1, 3), 5);
    assert_eq!(gen_partition_size(8, 12, 4096, 0), 0);
    assert_eq!(gen_path("606060606467717262616464", 4, 2), "60606060/64677172");
    assert_eq!(gen_path("606060606467717262616464", 4, 0), "");
    assert_eq!(gen_path("606060606467717262616464", 2, 3), "6060/6060/6467");
    assert_eq!(gen_path("606060606467717262616464", 12, 1), "606060606467717262616464");
}

#[test]
fn flat_layout_whatever_the_number_of_files() {
    // one note: flat, also where no file may lie in a directory
    let generator = PartitionPathGenerator::new(1, 5, 0, 3).unwrap();
    assert_eq!((generator.partition_depth(), generator.partition_length()), (1, 0));
    // no notes, so no melodies
    let generator = PartitionPathGenerator::new(0, 3, 0, 1).unwrap();
    assert_eq!((generator.partition_depth(), generator.partition_length()), (1, 0));
    // the one melody of length 0
    let generator = PartitionPathGenerator::new(7, 0, 1, 0).unwrap();
    assert_eq!((generator.partition_depth(), generator.partition_length()), (1, 0));
}

#[test]
fn directories_that_hold_no_file_take_in_the_whole_melody() {
    let generator = PartitionPathGenerator::new(2, 3, 0, 1).unwrap();
    assert_eq!((generator.partition_depth(), generator.partition_length()), (1, 3));
    assert_eq!(
        PartitionPathGenerator::new(2, 3, 0, 2).err(),
        Some(PartitionPathGeneratorError::PartitionsLongerThanMelody {
            melody_length: 3,
            partition_depth: 2,
            partition_length: 3,
        })
    );
    assert_eq!(gen_partition_size(2, 3, 0, 1), 3);
    assert_eq!(gen_partition_size(0, 3, 5, 1), 0);
    assert_eq!(gen_partition_size(0, 0, 0, 1), 0);
}

#[test]
fn when_a_batch_is_written_out() {
    let none = String::new();
    let first = "6060".to_string();
    let second = "6062".to_string();
    // the first file sets the partition
    assert!(!flush_before_push(&none, &first));
    assert!(!flush_before_push(&first, &first));
    assert!(flush_before_push(&first, &second));
    assert!(!flush_before_push(&none, &none));
    assert!(flush_before_push(&first, &none));
    assert!(flush_after_push(25, 25));
    assert!(!flush_after_push(24, 25));
    assert!(!flush_after_push(26, 25));
    // batches are numbered from 1 within a partition of 4096 files
    assert_eq!(gen_batch_number(0, 4096, 18), 1);
    assert_eq!(gen_batch_number(4086, 4096, 18), 228);
    assert_eq!(gen_batch_number(4096, 4096, 18), 1);
}

#[test]
fn number_of_melodies_is_a_power() {
    assert_eq!(gen_num_melodies(6, 9), 10077696);
    assert_eq!(gen_num_melodies(8, 12), 68719476736);
    assert_eq!(gen_num_melodies(3, 0), 1);
    assert_eq!(gen_num_melodies(0, 3), 0);
    assert_eq!(gen_num_melodies(2, 63), 1u64 << 63);
    assert_eq!(checked_pow(2, 63), Some(1u64 << 63));
    assert_eq!(checked_pow(2, 64), None);
    assert_eq!(checked_pow(128, 64), None);
    assert_eq!(checked_pow(0, 0), Some(1));
}

#[test]
fn partition_directive_path() {
    let directive = PartitionDirective {
        note_vec: vec![60, 60, 60, 60, 64, 67, 71, 72],
        partition: PartitionArgs { max_files: 4096, partition_depth: Some(2) },
    };
    // 8 notes, 8 long: 8^8 / 4096 = 8^4, to base 64: 2
    assert_eq!(directive.gen_path().unwrap(), "6060/6060/6060606064677172.mid");
    let flat = PartitionDirective {
        note_vec: vec![60, 62, 64],
        partition: PartitionArgs { max_files: 4096, partition_depth: None },
    };
    assert_eq!(flat.gen_path().unwrap(), "606264.mid");
    let deep = PartitionDirective {
        note_vec: vec![60, 62, 64, 65, 67, 69, 71, 72],
        partition: PartitionArgs { max_files: 1, partition_depth: Some(3) },
    };
    assert_eq!(
        deep.gen_path(),
        Err(PathGeneratorError::PartitionPathGenerator(
            PartitionPathGeneratorError::PartitionsLongerThanMelody {
                melody_length: 8,
                partition_depth: 3,
                partition_length: 3,
            }
        ))
    );
}

use atm::batched::BatchedMIDIArchiveState;
use atm::cli::{
    batch_from_parsed, length_from_parsed, maxf_from_parsed, pdepth_from_parsed,
    try_batch_from_str, try_length_from_str, try_maxf_from_str, try_pdepth_from_str, BatchSize,
    MelodyLengthArg, NumNotesArg, ParseNumberArgError, TargetArg,
};
use atm::directives::estimate::{
    gen_sim_file_size, gen_sim_num_melodies, pad_value_to_block, EstimateTarDirective,
    MAX_SIM_NUM_MELODIES,
};
use atm::directives::gen::{compression_from_parsed, try_compression_from_str, CompressionArgError};

#[test]
fn batch_size_must_be_positive() {
    assert_eq!(try_batch_from_str("25"), Ok(25));
    assert_eq!(try_batch_from_str("1"), Ok(1));
    assert_eq!(try_batch_from_str("4294967295"), Ok(u32::MAX));
    assert_eq!(
        try_batch_from_str("0"),
        Err(ParseNumberArgError::LessThanZero { arg_name: "Batch size".to_string() })
    );
    assert_eq!(try_batch_from_str("x"), Err(ParseNumberArgError::NotInteger));
    assert_eq!(try_batch_from_str(""), Err(ParseNumberArgError::NotInteger));
    assert_eq!(try_batch_from_str("-1"), Err(ParseNumberArgError::NotInteger));
    assert_eq!(try_batch_from_str("4294967296"), Err(ParseNumberArgError::NotInteger));
    assert_eq!(try_batch_from_str("+25"), Ok(25));
    assert_eq!(try_batch_from_str("007"), Ok(7));
    assert_eq!(try_batch_from_str("+"), Err(ParseNumberArgError::NotInteger));
    assert_eq!(try_batch_from_str("++5"), Err(ParseNumberArgError::NotInteger));
    assert_eq!(try_batch_from_str(" 5"), Err(ParseNumberArgError::NotInteger));
    assert_eq!(try_batch_from_str("5_0"), Err(ParseNumberArgError::NotInteger));
    assert_eq!(try_batch_from_str("\u{0665}"), Err(ParseNumberArgError::NotInteger));
    assert_eq!(batch_from_parsed("7".parse::<u32>()), Ok(7));
    assert_eq!(batch_from_parsed("7.5".parse::<u32>()), Err(ParseNumberArgError::NotInteger));
    assert_eq!(BatchSize::parse(None), Ok(BatchSize { batch_size: 25 }));
    assert_eq!(BatchSize::parse(Some("3")), Ok(BatchSize { batch_size: 3 }));
    assert_eq!(
        BatchSize::parse(Some("0")),
        Err(ParseNumberArgError::LessThanZero { arg_name: "Batch size".to_string() })
    );
}

#[test]
fn length_must_be_positive() {
    assert_eq!(try_length_from_str("12"), Ok(12));
    assert_eq!(
        try_length_from_str("0"),
        Err(ParseNumberArgError::LessThanZero { arg_name: "Length".to_string() })
    );
    assert_eq!(try_length_from_str("twelve"), Err(ParseNumberArgError::NotInteger));
    assert_eq!(length_from_parsed("3".parse::<u32>()), Ok(3));
}

#[test]
fn max_files_lies_between_one_and_4096() {
    assert_eq!(try_maxf_from_str("1"), Ok(1));
    assert_eq!(try_maxf_from_str("4096"), Ok(4096));
    for input in ["0", "4097"] {
        assert_eq!(
            try_maxf_from_str(input),
            Err(ParseNumberArgError::OutOfRange {
                arg_name: "Max files per directory".to_string(),
                min: "0".to_string(),
                max: "4096".to_string(),
                input: input.to_string(),
            })
        );
    }
    assert_eq!(try_maxf_from_str("many"), Err(ParseNumberArgError::NotInteger));
    assert_eq!(maxf_from_parsed("17".parse::<u32>(), "17"), Ok(17));
}

#[test]
fn partition_depth_lies_between_one_and_four() {
    assert_eq!(try_pdepth_from_str("1"), Ok(1));
    assert_eq!(try_pdepth_from_str("4"), Ok(4));
    for input in ["0", "5"] {
        assert_eq!(
            try_pdepth_from_str(input),
            Err(ParseNumberArgError::OutOfRange {
                arg_name: "Partition depth".to_string(),
                min: "0".to_string(),
                max: "4".to_string(),
                input: input.to_string(),
            })
        );
    }
    assert_eq!(try_pdepth_from_str("2 "), Err(ParseNumberArgError::NotInteger));
    assert_eq!(pdepth_from_parsed("2".parse::<u32>(), "2"), Ok(2));
}

#[test]
fn compression_lies_between_zero_and_nine() {
    assert_eq!(try_compression_from_str("0"), Ok(0));
    assert_eq!(try_compression_from_str("6"), Ok(6));
    assert_eq!(try_compression_from_str("9"), Ok(9));
    assert_eq!(
        try_compression_from_str("10"),
        Err(CompressionArgError::ValueOutOfRange { input: 10 })
    );
    assert_eq!(try_compression_from_str("best"), Err(CompressionArgError::NotInteger));
    assert_eq!(compression_from_parsed("4".parse::<u32>()), Ok(4));
}

#[test]
fn simulated_number_of_melodies() {
    assert_eq!(MAX_SIM_NUM_MELODIES, 200000);
    assert_eq!(gen_sim_num_melodies(0), 0);
    assert_eq!(gen_sim_num_melodies(150000), 150000);
    assert_eq!(gen_sim_num_melodies(200000), 200000);
    assert_eq!(gen_sim_num_melodies(200001), 40000);
    assert_eq!(gen_sim_num_melodies(999999), 199999);
    assert_eq!(gen_sim_num_melodies(1000000), 200000);
    assert_eq!(gen_sim_num_melodies(68719476736), 200000);
}

#[test]
fn estimated_file_size() {
    // every melody was simulated
    assert_eq!(gen_sim_file_size(1000, 1000, 5120), 5120);
    // the simulation was capped: 1000001 melodies take six runs
    assert_eq!(gen_sim_file_size(200000, 1000001, 1024), 6144);
    assert_eq!(gen_sim_file_size(200000, 1000000, 1024), 5120);
    // a fifth was simulated
    assert_eq!(gen_sim_file_size(40000, 200001, 1024), 5120);
}

#[test]
fn padding_to_blocks() {
    assert_eq!(pad_value_to_block(1024, None), 1024);
    assert_eq!(pad_value_to_block(1000, None), 1488);
    assert_eq!(pad_value_to_block(10, Some(4)), 12);
    assert_eq!(pad_value_to_block(10, Some(0)), 10);
    assert_eq!(pad_value_to_block(0, None), 0);
}

#[test]
fn estimated_size_of_a_tar_file() {
    let directive = EstimateTarDirective {
        num_notes: NumNotesArg { num_notes: 6 },
        melody_length: MelodyLengthArg { melody_length: 9 },
    };
    assert_eq!(directive.size(), Some(10077696 * 1024));
    let huge = EstimateTarDirective {
        num_notes: NumNotesArg { num_notes: 128 },
        melody_length: MelodyLengthArg { melody_length: 64 },
    };
    assert_eq!(huge.size(), None);
    let edge = EstimateTarDirective {
        num_notes: NumNotesArg { num_notes: 2 },
        melody_length: MelodyLengthArg { melody_length: 54 },
    };
    assert_eq!(edge.size(), None);
    let below = EstimateTarDirective {
        num_notes: NumNotesArg { num_notes: 2 },
        melody_length: MelodyLengthArg { melody_length: 53 },
    };
    assert_eq!(below.size(), Some(1u64 << 63));
}

#[test]
fn plain_argument_values() {
    let target = TargetArg { target: "out.tar".to_string() };
    assert_eq!(target.target, "out.tar");
    assert_ne!(BatchedMIDIArchiveState::Open, BatchedMIDIArchiveState::Closed);
}

use vstd::prelude::*;
use vstd::string::*;

verus! {

/// The error of `str::parse` for integers.
#[verifier::external_type_specification]
#[verifier::external_body]
pub struct ExParseIntError(std::num::ParseIntError);

/// The value of a decimal digit, or `None` for any other character.
pub open spec fn digit_value(c: char) -> Option<nat> {
    if '0' <= c && c <= '9' {
        Some((c as nat - '0' as nat) as nat)
    } else {
        None
    }
}

/// The number that a run of decimal digits stands for, or `None` where a
/// character is no digit. The empty run stands for 0.
pub open spec fn decimal_value(text: Seq<char>) -> Option<nat>
    decreases text.len(),
{
    if text.len() == 0 {
        Some(0)
    } else {
        match (decimal_value(text.drop_last()), digit_value(text.last())) {
            (Some(front), Some(digit)) => Some(front * 10 + digit),
            _ => None,
        }
    }
}

/// The 32-bit number that a text stands for: an optional `+`, then one or
/// more decimal digits and nothing else, with a value that fits in 32 bits.
pub open spec fn parsed_u32(arg: Seq<char>) -> Option<u32> {
    let digits = if arg.len() > 0 && arg[0] == '+' {
        arg.subrange(1, arg.len() as int)
    } else {
        arg
    };
    if digits.len() == 0 {
        None
    } else {
        match decimal_value(digits) {
            Some(value) => if value <= u32::MAX {
                Some(value as u32)
            } else {
                None
            },
            None => None,
        }
    }
}

/// `str::parse::<u32>`: the number that the text stands for, or an error
/// where it is not an optional `+` followed by decimal digits that make up
/// a 32-bit number.
#[verifier::external_body]
pub(crate) fn parse_u32(arg: &str) -> (r: Result<u32, std::num::ParseIntError>)
    ensures
        match parsed_u32(arg@) {
            Some(v) => r == Ok::<u32, std::num::ParseIntError>(v),
            None => r is Err,
        },
{
    arg.parse::<u32>()
}

/// Error type for parsing integers arguments from `&str`
#[derive(Debug, PartialEq, Eq)]
pub enum ParseNumberArgError {
    /// The argument is not a 32-bit number
    NotInteger,
    /// The argument must be greater than 0
    LessThanZero { arg_name: String },
    /// The argument must lie between `min` and `max`
    OutOfRange { arg_name: String, min: String, max: String, input: String },
}

/// Largest number of files per directory that can be asked for.
pub const MAX_FILES_LIMIT: u32 = 4096;

/// Largest partition depth that can be asked for.
pub const MAX_PARTITION_DEPTH: u32 = 4;

/// Whether `e` says that the argument called `name` must be greater than 0.
pub open spec fn is_less_than_zero(e: ParseNumberArgError, name: Seq<char>) -> bool {
    e matches ParseNumberArgError::LessThanZero { arg_name } && arg_name@ == name
}

/// Whether `e` says that the argument called `name`, given as `input`,
/// must lie between `min` and `max`.
pub open spec fn is_out_of_range(
    e: ParseNumberArgError,
    name: Seq<char>,
    min: Seq<char>,
    max: Seq<char>,
    input: Seq<char>,
) -> bool {
    e matches ParseNumberArgError::OutOfRange { arg_name, min: low, max: high, input: given }
        && arg_name@ == name && low@ == min && high@ == max && given@ == input
}

/// What a positive argument called `name` makes of a parsed number.
pub open spec fn positive_result(
    r: Result<u32, ParseNumberArgError>,
    parsed: Option<u32>,
    name: Seq<char>,
) -> bool {
    match parsed {
        None => r == Err::<u32, ParseNumberArgError>(ParseNumberArgError::NotInteger),
        Some(v) => if v == 0 {
            r matches Err(e) && is_less_than_zero(e, name)
        } else {
            r == Ok::<u32, ParseNumberArgError>(v)
        },
    }
}

/// What an argument called `name` that must lie in `1..=limit` makes of a parsed number.
pub open spec fn ranged_result(
    r: Result<u32, ParseNumberArgError>,
    parsed: Option<u32>,
    limit: u32,
    name: Seq<char>,
    max: Seq<char>,
    input: Seq<char>,
) -> bool {
    match parsed {
        None => r == Err::<u32, ParseNumberArgError>(ParseNumberArgError::NotInteger),
        Some(v) => if v == 0 || v > limit {
            r matches Err(e) && is_out_of_range(e, name, "0"@, max, input)
        } else {
            r == Ok::<u32, ParseNumberArgError>(v)
        },
    }
}

/// The parsed number as an option.
pub open spec fn accepted(parsed: Result<u32, std::num::ParseIntError>) -> Option<u32> {
    match parsed {
        Ok(v) => Some(v),
        Err(_) => None,
    }
}

/// Batch size from a parsed number: any number but 0.
pub fn batch_from_parsed(parsed: Result<u32, std::num::ParseIntError>) -> (r: Result<
    u32,
    ParseNumberArgError,
>)
    ensures
        positive_result(r, accepted(parsed), "Batch size"@),
{
    match parsed {
        Err(_) => Err(ParseNumberArgError::NotInteger),
        Ok(batch_size) => {
            if batch_size == 0 {
                Err(
                    ParseNumberArgError::LessThanZero {
                        arg_name: String::from_str("Batch size"),
                    },
                )
            } else {
                Ok(batch_size)
            }
        },
    }
}

/// Melody length from a parsed number: any number but 0.
pub fn length_from_parsed(parsed: Result<u32, std::num::ParseIntError>) -> (r: Result<
    u32,
    ParseNumberArgError,
>)
    ensures
        positive_result(r, accepted(parsed), "Length"@),
{
    match parsed {
        Err(_) => Err(ParseNumberArgError::NotInteger),
        Ok(length) => {
            if length == 0 {
                Err(ParseNumberArgError::LessThanZero { arg_name: String::from_str("Length") })
            } else {
                Ok(length)
            }
        },
    }
}

/// Maximum number of files per directory from a parsed number: between 1 and 4096.
pub fn maxf_from_parsed(parsed: Result<u32, std::num::ParseIntError>, arg: &str) -> (r: Result<
    u32,
    ParseNumberArgError,
>)
    ensures
        ranged_result(
            r,
            accepted(parsed),
            MAX_FILES_LIMIT,
            "Max files per directory"@,
            "4096"@,
            arg@,
        ),
{
    match parsed {
        Err(_) => Err(ParseNumberArgError::NotInteger),
        Ok(max_files) => {
            if max_files == 0 || max_files > MAX_FILES_LIMIT {
                Err(
                    ParseNumberArgError::OutOfRange {
                        arg_name: String::from_str("Max files per directory"),
                        min: String::from_str("0"),
                        max: String::from_str("4096"),
                        input: String::from_str(arg),
                    },
                )
            } else {
                Ok(max_files)
            }
        },
    }
}

/// Partition depth from a parsed number: between 1 and 4.
pub fn pdepth_from_parsed(parsed: Result<u32, std::num::ParseIntError>, arg: &str) -> (r: Result<
    u32,
    ParseNumberArgError,
>)
    ensures
        ranged_result(
            r,
            accepted(parsed),
            MAX_PARTITION_DEPTH,
            "Partition depth"@,
            "4"@,
            arg@,
        ),
{
    match parsed {
        Err(_) => Err(ParseNumberArgError::NotInteger),
        Ok(partition_depth) => {
            if partition_depth == 0 || partition_depth > MAX_PARTITION_DEPTH {
                Err(
                    ParseNumberArgError::OutOfRange {
                        arg_name: String::from_str("Partition depth"),
                        min: String::from_str("0"),
                        max: String::from_str("4"),
                        input: String::from_str(arg),
                    },
                )
            } else {
                Ok(partition_depth)
            }
        },
    }
}

/// Parses the number of melodies per batch.
pub fn try_batch_from_str(arg: &str) -> (r: Result<u32, ParseNumberArgError>)
    ensures
        positive_result(r, parsed_u32(arg@), "Batch size"@),
{
    batch_from_parsed(parse_u32(arg))
}

/// Parses the length of the melodies.
pub fn try_length_from_str(arg: &str) -> (r: Result<u32, ParseNumberArgError>)
    ensures
        positive_result(r, parsed_u32(arg@), "Length"@),
{
    length_from_parsed(parse_u32(arg))
}

/// Parses the maximum number of files per directory.
pub fn try_maxf_from_str(arg: &str) -> (r: Result<u32, ParseNumberArgError>)
    ensures
        ranged_result(
            r,
            parsed_u32(arg@),
            MAX_FILES_LIMIT,
            "Max files per directory"@,
            "4096"@,
            arg@,
        ),
{
    maxf_from_parsed(parse_u32(arg), arg)
}

/// Parses the partition depth.
pub fn try_pdepth_from_str(arg: &str) -> (r: Result<u32, ParseNumberArgError>)
    ensures
        ranged_result(
            r,
            parsed_u32(arg@),
            MAX_PARTITION_DEPTH,
            "Partition depth"@,
            "4"@,
            arg@,
        ),
{
    pdepth_from_parsed(parse_u32(arg), arg)
}

/// Number of melodies per batch.
#[derive(Debug, Clone, Copy, PartialEq, Eq)]
pub struct BatchSize {
    pub batch_size: u32,
}

/// Length of melodies (pitch sequences) to generate.
#[derive(Debug, Clone, Copy, PartialEq, Eq)]
pub struct MelodyLengthArg {
    pub melody_length: u32,
}

/// Number of distinct notes to generate melodies from.
#[derive(Debug, Clone, Copy, PartialEq, Eq)]
pub struct NumNotesArg {
    pub num_notes: u32,
}

/// Partitioning of the output.
#[derive(Debug, Clone, Copy, PartialEq, Eq)]
pub struct PartitionArgs {
    /// Maximum number of files per directory.
    pub max_files: u32,
    /// Partition depth to use for output directory structure.
    pub partition_depth: Option<u32>,
}

/// File output path (directory/directories must exist).
#[derive(Debug, PartialEq, Eq)]
pub struct TargetArg {
    pub target: String,
}

/// Number of melodies per batch where none is given.
pub const DEFAULT_BATCH_SIZE: u32 = 25;

impl BatchSize {
    /// Parses a batch size; a missing argument stands for 25.
    pub fn parse(arg: Option<&str>) -> (r: Result<Self, ParseNumberArgError>)
        ensures
            match arg {
                None => r == Ok::<Self, ParseNumberArgError>(
                    BatchSize { batch_size: DEFAULT_BATCH_SIZE },
                ),
                Some(text) => match r {
                    Ok(size) => positive_result(
                        Ok(size.batch_size),
                        parsed_u32(text@),
                        "Batch size"@,
                    ),
                    Err(e) => positive_result(Err(e), parsed_u32(text@), "Batch size"@),
                },
            },
    {
        match arg {
            None => Ok(BatchSize { batch_size: DEFAULT_BATCH_SIZE }),
            Some(text) => match try_batch_from_str(text) {
                Ok(batch_size) => Ok(BatchSize { batch_size }),
                Err(e) => Err(e),
            },
        }
    }
}

} // verus!

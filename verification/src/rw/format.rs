//! Serialization formats and what each of them asks of the encoder.
//!
//! A [`Format`] names how the columns of a chunk are laid out. Each format
//! has a strategy, which knows the extension of its files, its name, and the
//! [`EncodingPolicy`] that the columnar encoder is configured with.

use vstd::prelude::*;
use vstd::string::StringExecFns;
use datafusion::datasource::listing::ListingOptions;
use datafusion::parquet::file::properties::WriterProperties;
use crate::params::PARQUET;
use crate::rw::error::Error;
use crate::text::{owned, str_eq};
use crate::rw::writer::{
    body_for, columns_for, encoder_properties, listed_extension, listing_options, properties_body,
    properties_columns,
};
use crate::traits::AsExtension;

verus! {

/// The layout version of the columnar file.
#[derive(Debug, Clone, Copy, PartialEq, Eq, Structural)]
pub enum WriterVersion {
    Parquet1_0,
    Parquet2_0,
}

/// How the pages of a column are compressed.
#[derive(Debug, Clone, Copy, PartialEq, Eq, Structural)]
pub enum Compression {
    /// Whatever the encoder does when it is told nothing.
    EncoderDefault,
    Uncompressed,
    Zstd { level: i32 },
}

/// How much statistics the encoder writes for a column.
#[derive(Debug, Clone, Copy, PartialEq, Eq, Structural)]
pub enum Statistics {
    /// Whatever the encoder does when it is told nothing.
    EncoderDefault,
    Disabled,
    Page,
}

/// What holds for one column in place of the policy of the body.
#[derive(Debug, Clone, Copy, PartialEq, Eq, Structural)]
pub struct ColumnPolicy {
    pub compression: Compression,
    pub statistics: Statistics,
    pub bloom_filter: bool,
}

/// What a format asks of the encoder.
#[derive(Debug, Clone, Copy, PartialEq, Eq, Structural)]
pub struct EncodingPolicy {
    pub writer_version: WriterVersion,
    /// The compression of all columns but the timestamp.
    pub compression: Compression,
    /// Whether dictionary encoding is on; `None` leaves it to the encoder.
    pub dictionary_enabled: Option<bool>,
    /// The statistics of all columns but the timestamp.
    pub statistics: Statistics,
    /// The policy of the timestamp column, where it differs from the body.
    pub timestamp: Option<ColumnPolicy>,
}

/// The lowest and highest level of ZSTD compression.
pub open spec fn zstd_level_valid(level: int) -> bool {
    1 <= level <= 22
}

/// The policy of the timestamp column in the compressed formats: stored
/// plain, with page statistics and a bloom filter, so that a reader can skip
/// within a file by time.
pub open spec fn timestamp_policy() -> ColumnPolicy {
    ColumnPolicy {
        compression: Compression::Uncompressed,
        statistics: Statistics::Page,
        bloom_filter: true,
    }
}

/// The policy of a format whose body is compressed with ZSTD.
pub open spec fn zstd_policy(level: i32) -> EncodingPolicy {
    EncodingPolicy {
        writer_version: WriterVersion::Parquet2_0,
        compression: Compression::Zstd { level },
        dictionary_enabled: Some(false),
        statistics: Statistics::Disabled,
        timestamp: Some(timestamp_policy()),
    }
}

/// The policy of each format.
pub open spec fn policy_of(format: Format) -> EncodingPolicy {
    match format {
        Format::Default => EncodingPolicy {
            writer_version: WriterVersion::Parquet2_0,
            compression: Compression::EncoderDefault,
            dictionary_enabled: None,
            statistics: Statistics::EncoderDefault,
            timestamp: None,
        },
        Format::Ragged => zstd_policy(5),
        Format::Image => zstd_policy(22),
    }
}

/// The name of each format.
pub open spec fn name_of(format: Format) -> Seq<char> {
    match format {
        Format::Default => "default"@,
        Format::Ragged => "ragged"@,
        Format::Image => "image"@,
    }
}

/// The format of each name.
pub open spec fn format_named(name: Seq<char>) -> Option<Format> {
    if name == "default"@ {
        Some(Format::Default)
    } else if name == "ragged"@ {
        Some(Format::Ragged)
    } else if name == "image"@ {
        Some(Format::Image)
    } else {
        None
    }
}

/// Which files a reader lists for a format.
#[derive(Debug, Clone)]
pub struct ListingPolicy {
    /// The extension of the files, with the dot.
    pub file_extension: String,
}

/// The doing of a format: the extension of its files, its name, and what it
/// asks of the encoder and of the reader.
pub trait FormatStrategy {
    /// The extension of the files, without the dot.
    fn file_extension(&self) -> &'static str;

    /// What the format asks of the encoder.
    fn policy(&self) -> EncodingPolicy;

    /// The properties that the encoder is configured with.
    fn writer_properties(&self) -> WriterProperties;

    /// Which files a reader lists.
    fn listing_policy(&self) -> ListingPolicy;

    /// The options that the reader lists files with.
    fn listing_options(&self) -> ListingOptions;

    /// The name of the format.
    fn name(&self) -> &'static str;
}

/// The files with the extension `extension`.
fn listing_for(extension: &str) -> (r: ListingPolicy)
    ensures
        r.file_extension@ == "."@ + extension@,
{
    ListingPolicy { file_extension: owned(".").concat(extension) }
}

/// The policy of a format whose body is compressed with ZSTD.
fn zstd_properties(level: i32) -> (r: EncodingPolicy)
    ensures
        r == zstd_policy(level),
{
    EncodingPolicy {
        writer_version: WriterVersion::Parquet2_0,
        compression: Compression::Zstd { level },
        dictionary_enabled: Some(false),
        statistics: Statistics::Disabled,
        timestamp: Some(
            ColumnPolicy {
                compression: Compression::Uncompressed,
                statistics: Statistics::Page,
                bloom_filter: true,
            },
        ),
    }
}

/// Columnar data with fixed-width columns: the encoder's own settings.
#[derive(Debug, Clone, Copy)]
pub struct DefaultFormatStrategy;

impl FormatStrategy for DefaultFormatStrategy {
    fn file_extension(&self) -> (r: &'static str)
        ensures
            r@ == PARQUET@,
    {
        PARQUET
    }

    fn policy(&self) -> (r: EncodingPolicy)
        ensures
            r == policy_of(Format::Default),
    {
        EncodingPolicy {
            writer_version: WriterVersion::Parquet2_0,
            compression: Compression::EncoderDefault,
            dictionary_enabled: None,
            statistics: Statistics::EncoderDefault,
            timestamp: None,
        }
    }

    fn listing_policy(&self) -> (r: ListingPolicy)
        ensures
            r.file_extension@ == "."@ + PARQUET@,
    {
        listing_for(self.file_extension())
    }

    fn writer_properties(&self) -> (r: WriterProperties)
        ensures
            properties_body(r) == body_for(policy_of(Format::Default)),
            properties_columns(r) == columns_for(policy_of(Format::Default)),
    {
        encoder_properties(&self.policy())
    }

    fn listing_options(&self) -> (r: ListingOptions)
        ensures
            listed_extension(r) == "."@ + PARQUET@,
    {
        listing_options(&self.listing_policy())
    }

    fn name(&self) -> (r: &'static str)
        ensures
            r@ == name_of(Format::Default),
    {
        "default"
    }
}

/// Nested and list-like data: a balance of compression ratio and speed.
#[derive(Debug, Clone, Copy)]
pub struct RaggedFormatStrategy;

impl RaggedFormatStrategy {
    /// The level of ZSTD compression.
    pub const COMPRESSION_LEVEL: i32 = 5;
}

impl FormatStrategy for RaggedFormatStrategy {
    fn file_extension(&self) -> (r: &'static str)
        ensures
            r@ == PARQUET@,
    {
        PARQUET
    }

    fn policy(&self) -> (r: EncodingPolicy)
        ensures
            r == policy_of(Format::Ragged),
    {
        zstd_properties(RaggedFormatStrategy::COMPRESSION_LEVEL)
    }

    fn listing_policy(&self) -> (r: ListingPolicy)
        ensures
            r.file_extension@ == "."@ + PARQUET@,
    {
        listing_for(self.file_extension())
    }

    fn writer_properties(&self) -> (r: WriterProperties)
        ensures
            properties_body(r) == body_for(policy_of(Format::Ragged)),
            properties_columns(r) == columns_for(policy_of(Format::Ragged)),
    {
        encoder_properties(&self.policy())
    }

    fn listing_options(&self) -> (r: ListingOptions)
        ensures
            listed_extension(r) == "."@ + PARQUET@,
    {
        listing_options(&self.listing_policy())
    }

    fn name(&self) -> (r: &'static str)
        ensures
            r@ == name_of(Format::Ragged),
    {
        "ragged"
    }
}

/// Images and dense arrays, written once and read often: the highest
/// compression.
#[derive(Debug, Clone, Copy)]
pub struct ImageFormatStrategy;

impl ImageFormatStrategy {
    /// The level of ZSTD compression.
    pub const COMPRESSION_LEVEL: i32 = 22;
}

impl FormatStrategy for ImageFormatStrategy {
    fn file_extension(&self) -> (r: &'static str)
        ensures
            r@ == PARQUET@,
    {
        PARQUET
    }

    fn policy(&self) -> (r: EncodingPolicy)
        ensures
            r == policy_of(Format::Image),
    {
        zstd_properties(ImageFormatStrategy::COMPRESSION_LEVEL)
    }

    fn listing_policy(&self) -> (r: ListingPolicy)
        ensures
            r.file_extension@ == "."@ + PARQUET@,
    {
        listing_for(self.file_extension())
    }

    fn writer_properties(&self) -> (r: WriterProperties)
        ensures
            properties_body(r) == body_for(policy_of(Format::Image)),
            properties_columns(r) == columns_for(policy_of(Format::Image)),
    {
        encoder_properties(&self.policy())
    }

    fn listing_options(&self) -> (r: ListingOptions)
        ensures
            listed_extension(r) == "."@ + PARQUET@,
    {
        listing_options(&self.listing_policy())
    }

    fn name(&self) -> (r: &'static str)
        ensures
            r@ == name_of(Format::Image),
    {
        "image"
    }
}

/// How the columns of a chunk are laid out and encoded.
#[derive(Debug, Clone, Copy, PartialEq, Eq, Structural)]
pub enum Format {
    /// Structured data where each row has a fixed number of columns.
    Default,
    /// Records that hold a variable number of items.
    Ragged,
    /// Images and dense multi-dimensional arrays.
    Image,
}

/// The strategy of one of the formats.
#[derive(Debug, Clone, Copy)]
pub enum Strategy {
    Default(DefaultFormatStrategy),
    Ragged(RaggedFormatStrategy),
    Image(ImageFormatStrategy),
}

impl Strategy {
    /// The format whose strategy this is.
    pub open spec fn format(&self) -> Format {
        match self {
            Strategy::Default(_) => Format::Default,
            Strategy::Ragged(_) => Format::Ragged,
            Strategy::Image(_) => Format::Image,
        }
    }
}

impl FormatStrategy for Strategy {
    fn file_extension(&self) -> (r: &'static str)
        ensures
            r@ == PARQUET@,
    {
        match self {
            Strategy::Default(s) => s.file_extension(),
            Strategy::Ragged(s) => s.file_extension(),
            Strategy::Image(s) => s.file_extension(),
        }
    }

    fn policy(&self) -> (r: EncodingPolicy)
        ensures
            r == policy_of(self.format()),
    {
        match self {
            Strategy::Default(s) => s.policy(),
            Strategy::Ragged(s) => s.policy(),
            Strategy::Image(s) => s.policy(),
        }
    }

    fn listing_policy(&self) -> (r: ListingPolicy)
        ensures
            r.file_extension@ == "."@ + PARQUET@,
    {
        match self {
            Strategy::Default(s) => s.listing_policy(),
            Strategy::Ragged(s) => s.listing_policy(),
            Strategy::Image(s) => s.listing_policy(),
        }
    }

    fn writer_properties(&self) -> (r: WriterProperties)
        ensures
            properties_body(r) == body_for(policy_of(self.format())),
            properties_columns(r) == columns_for(policy_of(self.format())),
    {
        encoder_properties(&self.policy())
    }

    fn listing_options(&self) -> (r: ListingOptions)
        ensures
            listed_extension(r) == "."@ + PARQUET@,
    {
        listing_options(&self.listing_policy())
    }

    fn name(&self) -> (r: &'static str)
        ensures
            r@ == name_of(self.format()),
    {
        match self {
            Strategy::Default(s) => s.name(),
            Strategy::Ragged(s) => s.name(),
            Strategy::Image(s) => s.name(),
        }
    }
}

impl Format {
    /// The strategy of the format.
    pub fn strategy(&self) -> (r: Strategy)
        ensures
            r.format() == *self,
    {
        match self {
            Format::Default => Strategy::Default(DefaultFormatStrategy),
            Format::Ragged => Strategy::Ragged(RaggedFormatStrategy),
            Format::Image => Strategy::Image(ImageFormatStrategy),
        }
    }

    /// The name of the format.
    pub fn to_string(&self) -> (r: String)
        ensures
            r@ == name_of(*self),
    {
        owned(self.strategy().name())
    }

    /// The format called `value`; an error for any other text.
    pub fn from_str(value: &str) -> (r: Result<Format, Error>)
        ensures
            match r {
                Ok(f) => format_named(value@) == Some(f),
                Err(Error::UnkownFormat(name)) => format_named(value@) is None && name@ == value@,
                Err(_) => false,
            },
    {
        if str_eq(value, "default") {
            Ok(Format::Default)
        } else if str_eq(value, "ragged") {
            Ok(Format::Ragged)
        } else if str_eq(value, "image") {
            Ok(Format::Image)
        } else {
            Err(Error::UnkownFormat(owned(value)))
        }
    }
}

/// What each format asks of the encoder.
pub fn policy_for(format: Format) -> (r: EncodingPolicy)
    ensures
        r == policy_of(format),
{
    format.strategy().policy()
}

impl AsExtension for Format {
    fn as_extension(&self) -> (r: String)
        ensures
            r@ == PARQUET@,
    {
        owned(self.strategy().file_extension())
    }
}

/// The name of a format reads back as that format.
pub proof fn lemma_format_name_round_trip(format: Format)
    ensures
        format_named(name_of(format)) == Some(format),
{
    reveal_strlit("default");
    reveal_strlit("ragged");
    reveal_strlit("image");
    match format {
        Format::Default => {},
        Format::Ragged => {
            assert("ragged"@[0] != "default"@[0]);
        },
        Format::Image => {
            assert("image"@[0] != "default"@[0]);
            assert("image"@[0] != "ragged"@[0]);
        },
    }
}

/// The compressed formats ask for a level of ZSTD that exists.
pub proof fn lemma_zstd_levels_valid(format: Format)
    ensures
        policy_of(format).compression matches Compression::Zstd { level } ==> zstd_level_valid(
            level as int,
        ),
{
}

/// A text is the name of a format exactly when it is one of the three
/// names, and then it is the name of the format it names.
pub proof fn lemma_format_named(name: Seq<char>)
    ensures
        format_named(name) is Some <==> name == "default"@ || name == "ragged"@ || name
            == "image"@,
        format_named(name) matches Some(f) ==> name_of(f) == name,
{
}

} // verus!

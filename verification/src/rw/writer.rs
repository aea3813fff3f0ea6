//! Handing the policy of a format to the encoder and to the reader.

use vstd::prelude::*;
use datafusion::datasource::file_format::parquet::ParquetFormat;
use datafusion::datasource::listing::ListingOptions;
use datafusion::parquet::basic::{Compression as Codec, ZstdLevel};
use datafusion::parquet::file::properties::{
    EnabledStatistics, WriterProperties, WriterPropertiesBuilder, WriterVersion as FileVersion,
};
use datafusion::parquet::schema::types::ColumnPath;
use crate::params::ARROW_SCHEMA_COLUMN_NAME_TIMESTAMP;
use crate::rw::format::{
    zstd_level_valid, Compression, EncodingPolicy, ListingPolicy, Statistics, WriterVersion,
};

verus! {

/// The properties of the columnar encoder. What they hold is spoken of
/// through `properties_columns` and `properties_body`.
#[verifier::external_type_specification]
#[verifier::external_body]
pub struct ExWriterProperties(datafusion::parquet::file::properties::WriterProperties);

/// The builder of the encoder's properties. What it holds is spoken of
/// through `builder_columns` and `builder_body`.
#[verifier::external_type_specification]
#[verifier::external_body]
pub struct ExWriterPropertiesBuilder(datafusion::parquet::file::properties::WriterPropertiesBuilder);

/// The options with which the engine lists the files of a table. Of what
/// they hold, the extension is spoken of through `listed_extension`.
#[verifier::external_type_specification]
#[verifier::external_body]
pub struct ExListingOptions(datafusion::datasource::listing::ListingOptions);

/// What is set for a column, or for all columns. A setting that was not
/// made is left to the encoder: `EncoderDefault`, or `None`.
pub struct ColumnSettings {
    pub compression: Compression,
    pub dictionary_enabled: Option<bool>,
    pub statistics: Statistics,
    pub bloom_filter: bool,
}

/// What is set for the file and for all its columns.
pub struct BodySettings {
    pub version: WriterVersion,
    pub columns: ColumnSettings,
}

/// The settings that a builder holds for single columns, by the name of the
/// column: the columns for which a setting was made.
pub uninterp spec fn builder_columns(
    b: datafusion::parquet::file::properties::WriterPropertiesBuilder,
) -> Map<Seq<char>, ColumnSettings>;

/// The settings that a builder holds for the file and for all columns.
pub uninterp spec fn builder_body(
    b: datafusion::parquet::file::properties::WriterPropertiesBuilder,
) -> BodySettings;

/// The settings that the properties hold for single columns, by the name of
/// the column.
pub uninterp spec fn properties_columns(
    p: datafusion::parquet::file::properties::WriterProperties,
) -> Map<Seq<char>, ColumnSettings>;

/// The settings that the properties hold for the file and for all columns.
pub uninterp spec fn properties_body(
    p: datafusion::parquet::file::properties::WriterProperties,
) -> BodySettings;

/// The extension of the files that the options list.
pub uninterp spec fn listed_extension(o: datafusion::datasource::listing::ListingOptions) -> Seq<
    char,
>;

/// No setting made.
pub open spec fn unset() -> ColumnSettings {
    ColumnSettings {
        compression: Compression::EncoderDefault,
        dictionary_enabled: None,
        statistics: Statistics::EncoderDefault,
        bloom_filter: false,
    }
}

/// No column with a setting of its own.
pub open spec fn no_columns() -> Map<Seq<char>, ColumnSettings> {
    Map::empty()
}

/// The settings of a fresh builder for the file and for all columns: the
/// first layout version, and no setting made.
pub open spec fn fresh_body() -> BodySettings {
    BodySettings { version: WriterVersion::Parquet1_0, columns: unset() }
}

/// What is set for the column `column`: nothing where no setting was made
/// for it.
pub open spec fn set_for(columns: Map<Seq<char>, ColumnSettings>, column: Seq<char>)
    -> ColumnSettings {
    if columns.dom().contains(column) {
        columns[column]
    } else {
        unset()
    }
}

/// The settings with the compression set.
pub open spec fn compressed(s: ColumnSettings, compression: Compression) -> ColumnSettings {
    ColumnSettings { compression, ..s }
}

/// The settings with dictionary encoding switched on or off.
pub open spec fn with_dictionary_set(s: ColumnSettings, enabled: bool) -> ColumnSettings {
    ColumnSettings { dictionary_enabled: Some(enabled), ..s }
}

/// The settings with the statistics set.
pub open spec fn with_statistics_set(s: ColumnSettings, statistics: Statistics) -> ColumnSettings {
    ColumnSettings { statistics, ..s }
}

/// The settings with the bloom filter switched on or off.
pub open spec fn with_bloom_filter_set(s: ColumnSettings, enabled: bool) -> ColumnSettings {
    ColumnSettings { bloom_filter: enabled, ..s }
}

/// The settings of the file with those of all columns replaced.
pub open spec fn with_columns_set(b: BodySettings, columns: ColumnSettings) -> BodySettings {
    BodySettings { columns, ..b }
}

/// The settings of the file with the layout version replaced.
pub open spec fn with_version_set(b: BodySettings, version: WriterVersion) -> BodySettings {
    BodySettings { version, ..b }
}

/// A builder from `WriterProperties::builder`: it holds the first layout
/// version, no setting for all columns and none for any single column.
#[verifier::external_body]
fn builder() -> (r: WriterPropertiesBuilder)
    ensures
        builder_columns(r) == no_columns(),
        builder_body(r) == fresh_body(),
{
    WriterProperties::builder()
}

/// Sets the first layout version with `set_writer_version`; nothing else
/// changes.
#[verifier::external_body]
fn with_version_1(b: WriterPropertiesBuilder) -> (r: WriterPropertiesBuilder)
    ensures
        builder_columns(r) == builder_columns(b),
        builder_body(r) == with_version_set(builder_body(b), WriterVersion::Parquet1_0),
{
    b.set_writer_version(FileVersion::PARQUET_1_0)
}

/// Sets the second layout version with `set_writer_version`; nothing else
/// changes.
#[verifier::external_body]
fn with_version_2(b: WriterPropertiesBuilder) -> (r: WriterPropertiesBuilder)
    ensures
        builder_columns(r) == builder_columns(b),
        builder_body(r) == with_version_set(builder_body(b), WriterVersion::Parquet2_0),
{
    b.set_writer_version(FileVersion::PARQUET_2_0)
}

/// Sets ZSTD compression of the given level for all columns with
/// `set_compression`; nothing else changes. The level must be one that
/// `ZstdLevel::try_new` takes: from 1 to 22.
#[verifier::external_body]
fn with_zstd(b: WriterPropertiesBuilder, level: i32) -> (r: WriterPropertiesBuilder)
    requires
        zstd_level_valid(level as int),
    ensures
        builder_columns(r) == builder_columns(b),
        builder_body(r) == with_columns_set(
            builder_body(b),
            compressed(builder_body(b).columns, (Compression::Zstd { level })),
        ),
{
    match ZstdLevel::try_new(level) {
        Ok(level) => b.set_compression(Codec::ZSTD(level)),
        Err(_) => b,
    }
}

/// Switches compression off for all columns with `set_compression`; nothing
/// else changes.
#[verifier::external_body]
fn with_no_compression(b: WriterPropertiesBuilder) -> (r: WriterPropertiesBuilder)
    ensures
        builder_columns(r) == builder_columns(b),
        builder_body(r) == with_columns_set(
            builder_body(b),
            compressed(builder_body(b).columns, Compression::Uncompressed),
        ),
{
    b.set_compression(Codec::UNCOMPRESSED)
}

/// Switches dictionary encoding on or off for all columns with
/// `set_dictionary_enabled`; nothing else changes.
#[verifier::external_body]
fn with_dictionary(b: WriterPropertiesBuilder, enabled: bool) -> (r: WriterPropertiesBuilder)
    ensures
        builder_columns(r) == builder_columns(b),
        builder_body(r) == with_columns_set(
            builder_body(b),
            with_dictionary_set(builder_body(b).columns, enabled),
        ),
{
    b.set_dictionary_enabled(enabled)
}

/// Asks for page statistics of all columns with `set_statistics_enabled`;
/// nothing else changes.
#[verifier::external_body]
fn with_page_statistics(b: WriterPropertiesBuilder) -> (r: WriterPropertiesBuilder)
    ensures
        builder_columns(r) == builder_columns(b),
        builder_body(r) == with_columns_set(
            builder_body(b),
            with_statistics_set(builder_body(b).columns, Statistics::Page),
        ),
{
    b.set_statistics_enabled(EnabledStatistics::Page)
}

/// Asks for no statistics of any column with `set_statistics_enabled`;
/// nothing else changes.
#[verifier::external_body]
fn with_no_statistics(b: WriterPropertiesBuilder) -> (r: WriterPropertiesBuilder)
    ensures
        builder_columns(r) == builder_columns(b),
        builder_body(r) == with_columns_set(
            builder_body(b),
            with_statistics_set(builder_body(b).columns, Statistics::Disabled),
        ),
{
    b.set_statistics_enabled(EnabledStatistics::None)
}

/// Sets ZSTD compression of the given level for the column named `column`
/// with `set_column_compression`; what else is set for the column stays, and
/// so do the settings of all columns. The level must be from 1 to 22.
#[verifier::external_body]
fn with_column_zstd(b: WriterPropertiesBuilder, column: &str, level: i32) -> (r:
    WriterPropertiesBuilder)
    requires
        zstd_level_valid(level as int),
    ensures
        builder_body(r) == builder_body(b),
        builder_columns(r) == builder_columns(b).insert(
            column@,
            compressed(set_for(builder_columns(b), column@), (Compression::Zstd { level })),
        ),
{
    match ZstdLevel::try_new(level) {
        Ok(level) => b.set_column_compression(ColumnPath::from(column), Codec::ZSTD(level)),
        Err(_) => b,
    }
}

/// Switches compression off for the column named `column` with
/// `set_column_compression`; what else is set for the column stays, and so
/// do the settings of all columns.
#[verifier::external_body]
fn with_column_no_compression(b: WriterPropertiesBuilder, column: &str) -> (r:
    WriterPropertiesBuilder)
    ensures
        builder_body(r) == builder_body(b),
        builder_columns(r) == builder_columns(b).insert(
            column@,
            compressed(set_for(builder_columns(b), column@), Compression::Uncompressed),
        ),
{
    b.set_column_compression(ColumnPath::from(column), Codec::UNCOMPRESSED)
}

/// Asks for page statistics of the column named `column` with
/// `set_column_statistics_enabled`; what else is set for the column stays,
/// and so do the settings of all columns.
#[verifier::external_body]
fn with_column_page_statistics(b: WriterPropertiesBuilder, column: &str) -> (r:
    WriterPropertiesBuilder)
    ensures
        builder_body(r) == builder_body(b),
        builder_columns(r) == builder_columns(b).insert(
            column@,
            with_statistics_set(set_for(builder_columns(b), column@), Statistics::Page),
        ),
{
    b.set_column_statistics_enabled(ColumnPath::from(column), EnabledStatistics::Page)
}

/// Asks for no statistics of the column named `column` with
/// `set_column_statistics_enabled`; what else is set for the column stays,
/// and so do the settings of all columns.
#[verifier::external_body]
fn with_column_no_statistics(b: WriterPropertiesBuilder, column: &str) -> (r:
    WriterPropertiesBuilder)
    ensures
        builder_body(r) == builder_body(b),
        builder_columns(r) == builder_columns(b).insert(
            column@,
            with_statistics_set(set_for(builder_columns(b), column@), Statistics::Disabled),
        ),
{
    b.set_column_statistics_enabled(ColumnPath::from(column), EnabledStatistics::None)
}

/// Switches the bloom filter of the column named `column` on or off with
/// `set_column_bloom_filter_enabled`; what else is set for the column
/// stays, and so do the settings of all columns.
#[verifier::external_body]
fn with_column_bloom_filter(b: WriterPropertiesBuilder, column: &str, enabled: bool) -> (r:
    WriterPropertiesBuilder)
    ensures
        builder_body(r) == builder_body(b),
        builder_columns(r) == builder_columns(b).insert(
            column@,
            with_bloom_filter_set(set_for(builder_columns(b), column@), enabled),
        ),
{
    b.set_column_bloom_filter_enabled(ColumnPath::from(column), enabled)
}

/// The properties from `build`: they hold the settings of the builder.
#[verifier::external_body]
fn built(b: WriterPropertiesBuilder) -> (r: WriterProperties)
    ensures
        properties_columns(r) == builder_columns(b),
        properties_body(r) == builder_body(b),
{
    b.build()
}

/// The options that read the files of a table as columnar files, from
/// `ListingOptions::new` with the default `ParquetFormat`.
#[verifier::external_body]
fn columnar_listing() -> ListingOptions {
    ListingOptions::new(std::sync::Arc::new(ParquetFormat::default()))
}

/// The options with the extension of the files to list set to `extension`,
/// from `with_file_extension`.
#[verifier::external_body]
fn with_extension(options: ListingOptions, extension: &str) -> (r: ListingOptions)
    ensures
        listed_extension(r) == extension@,
{
    options.with_file_extension(extension)
}

/// Whether the levels of ZSTD compression that the policy names exist.
pub open spec fn levels_valid(policy: EncodingPolicy) -> bool {
    &&& policy.compression matches Compression::Zstd { level } ==> zstd_level_valid(level as int)
    &&& policy.timestamp matches Some(ts) ==> (ts.compression matches Compression::Zstd { level }
        ==> zstd_level_valid(level as int))
}

/// What a policy sets for the file and for all columns. No bloom filter is
/// asked for all columns.
pub open spec fn body_for(policy: EncodingPolicy) -> BodySettings {
    BodySettings {
        version: policy.writer_version,
        columns: ColumnSettings {
            compression: policy.compression,
            dictionary_enabled: policy.dictionary_enabled,
            statistics: policy.statistics,
            bloom_filter: false,
        },
    }
}

/// What a policy sets for single columns: for the timestamp column what
/// the policy says of it, and nothing for any other column.
pub open spec fn columns_for(policy: EncodingPolicy) -> Map<Seq<char>, ColumnSettings> {
    match policy.timestamp {
        Some(ts) => no_columns().insert(
            ARROW_SCHEMA_COLUMN_NAME_TIMESTAMP@,
            ColumnSettings {
                compression: ts.compression,
                dictionary_enabled: None,
                statistics: ts.statistics,
                bloom_filter: ts.bloom_filter,
            },
        ),
        None => no_columns(),
    }
}

/// The properties of the encoder for a policy: they hold what the policy
/// sets, and what the policy leaves to the encoder is not set.
pub fn encoder_properties(policy: &EncodingPolicy) -> (r: WriterProperties)
    requires
        levels_valid(*policy),
    ensures
        properties_body(r) == body_for(*policy),
        properties_columns(r) == columns_for(*policy),
{
    let mut b = match policy.writer_version {
        WriterVersion::Parquet1_0 => with_version_1(builder()),
        WriterVersion::Parquet2_0 => with_version_2(builder()),
    };
    match policy.compression {
        Compression::EncoderDefault => {},
        Compression::Uncompressed => {
            b = with_no_compression(b);
        },
        Compression::Zstd { level } => {
            b = with_zstd(b, level);
        },
    }
    match policy.dictionary_enabled {
        Some(enabled) => {
            b = with_dictionary(b, enabled);
        },
        None => {},
    }
    match policy.statistics {
        Statistics::EncoderDefault => {},
        Statistics::Disabled => {
            b = with_no_statistics(b);
        },
        Statistics::Page => {
            b = with_page_statistics(b);
        },
    }
    match policy.timestamp {
        Some(ts) => {
            let column = ARROW_SCHEMA_COLUMN_NAME_TIMESTAMP;
            match ts.compression {
                Compression::EncoderDefault => {},
                Compression::Uncompressed => {
                    b = with_column_no_compression(b, column);
                },
                Compression::Zstd { level } => {
                    b = with_column_zstd(b, column, level);
                },
            }
            match ts.statistics {
                Statistics::EncoderDefault => {},
                Statistics::Disabled => {
                    b = with_column_no_statistics(b, column);
                },
                Statistics::Page => {
                    b = with_column_page_statistics(b, column);
                },
            }
            b = with_column_bloom_filter(b, column, ts.bloom_filter);
            assert(builder_columns(b) =~= columns_for(*policy));
        },
        None => {},
    }
    built(b)
}

/// The options of the reader for a listing policy: they list the files with
/// the extension of the policy.
pub fn listing_options(policy: &ListingPolicy) -> (r: ListingOptions)
    ensures
        listed_extension(r) == policy.file_extension@,
{
    with_extension(columnar_listing(), policy.file_extension.as_str())
}

} // verus!

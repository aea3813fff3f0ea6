use mosaicod::params;
use mosaicod::rw::format::{
    Compression, EncodingPolicy, Format, FormatStrategy, Statistics, WriterVersion,
};
use mosaicod::traits::AsExtension;

#[test]
fn from_str() {
    let default = Format::from_str("default");
    assert!(default.is_ok());
    assert_eq!(default.as_ref().unwrap(), &Format::Default);
    assert_eq!(default.unwrap().as_extension(), params::PARQUET);

    let ragged = Format::from_str("ragged");
    assert!(ragged.is_ok());
    assert_eq!(ragged.as_ref().unwrap(), &Format::Ragged);
    assert_eq!(ragged.unwrap().as_extension(), params::PARQUET);

    let image = Format::from_str("image");
    assert!(image.is_ok());
    assert_eq!(image.as_ref().unwrap(), &Format::Image);
    assert_eq!(image.unwrap().as_extension(), params::PARQUET);
}

#[test]
fn to_str() {
    assert_eq!("ragged", Format::Ragged.to_string());
    assert_eq!("default", Format::Default.to_string());
    assert_eq!("image", Format::Image.to_string());
}

#[test]
fn strategy_names() {
    assert_eq!(Format::Default.strategy().name(), "default");
    assert_eq!(Format::Ragged.strategy().name(), "ragged");
    assert_eq!(Format::Image.strategy().name(), "image");
}

#[test]
fn strategy_extensions() {
    assert_eq!(Format::Default.strategy().file_extension(), "parquet");
    assert_eq!(Format::Ragged.strategy().file_extension(), "parquet");
    assert_eq!(Format::Image.strategy().file_extension(), "parquet");
}

#[test]
fn strategy_writer_properties() {
    let _ = Format::Default.strategy().writer_properties();
    let _ = Format::Ragged.strategy().writer_properties();
    let _ = Format::Image.strategy().writer_properties();
}

#[test]
fn strategy_listing_options() {
    let _ = Format::Default.strategy().listing_options();
    let _ = Format::Ragged.strategy().listing_options();
    let _ = Format::Image.strategy().listing_options();
}

#[test]
fn format_names_round_trip() {
    for name in ["default", "ragged", "image"] {
        assert_eq!(Format::from_str(name).unwrap().to_string(), name);
    }
}

#[test]
fn unknown_format_is_rejected() {
    for name in ["", "Default", "parquet", "image ", "raggedy"] {
        let err = Format::from_str(name).unwrap_err();
        assert!(matches!(&err, mosaicod::rw::error::Error::UnkownFormat(n) if n == name));
        assert_eq!(err.to_string(), format!("unknown format `{}`", name));
    }
}

#[test]
fn default_policy_leaves_the_encoder_alone() {
    let p = Format::Default.strategy().policy();
    assert_eq!(
        p,
        EncodingPolicy {
            writer_version: WriterVersion::Parquet2_0,
            compression: Compression::EncoderDefault,
            dictionary_enabled: None,
            statistics: Statistics::EncoderDefault,
            timestamp: None,
        }
    );
}

#[test]
fn compressed_policies_keep_the_timestamp_plain() {
    for (format, level) in [(Format::Ragged, 5), (Format::Image, 22)] {
        let p = format.strategy().policy();
        assert_eq!(p.writer_version, WriterVersion::Parquet2_0);
        assert_eq!(p.compression, Compression::Zstd { level });
        assert_eq!(p.dictionary_enabled, Some(false));
        assert_eq!(p.statistics, Statistics::Disabled);
        let ts = p.timestamp.unwrap();
        assert_eq!(ts.compression, Compression::Uncompressed);
        assert_eq!(ts.statistics, Statistics::Page);
        assert!(ts.bloom_filter);
    }
}

#[test]
fn listing_takes_files_by_extension() {
    for format in [Format::Default, Format::Ragged, Format::Image] {
        assert_eq!(format.strategy().listing_policy().file_extension, ".parquet");
        assert_eq!(format.strategy().listing_options().file_extension, ".parquet");
    }
}

#[test]
fn listing_options_take_the_extension_of_the_policy() {
    for extension in [".chunk", "", ".parquet", ".zst"] {
        let policy = mosaicod::rw::format::ListingPolicy { file_extension: extension.to_string() };
        let options = mosaicod::rw::writer::listing_options(&policy);
        assert_eq!(options.file_extension, extension);
        assert!(options.table_partition_cols.is_empty());
    }
}

use mosaicod::rw::chunk_writer::{ChunkWriter, Column, ColumnData, LeafType, ChunkSchema};
use mosaicod::rw::error::Error;
use mosaicod::rw::format::Format;
use mosaicod::types::chunk::{NumericStats, Stats, TextStats};
use mosaicod::types::float::Float;

fn fl(v: f64) -> Float {
    Float::from_bits(v.to_bits())
}

fn num(v: Float) -> f64 {
    f64::from_bits(v.to_bits())
}

fn column(path: &str, leaf: LeafType, nullable: bool) -> Column {
    Column { path: path.into(), leaf, nullable }
}

fn schema() -> ChunkSchema {
    ChunkSchema {
        columns: vec![
            column("timestamp", LeafType::Integer, false),
            column("sensor_id", LeafType::Text, false),
            column("position.x", LeafType::Float, true),
            column("valid", LeafType::Boolean, true),
            column("blob", LeafType::Other, true),
        ],
    }
}

fn values(rows: std::ops::Range<i64>) -> Vec<ColumnData> {
    vec![
        ColumnData::Integers(rows.clone().map(Some).collect()),
        ColumnData::Texts(rows.clone().map(|i| Some(format!("s{}", i % 3))).collect()),
        ColumnData::Numbers(
            rows.clone()
                .map(|i| match i % 5 {
                    0 => None,
                    1 => Some(fl(f64::NAN)),
                    _ => Some(fl(i as f64 / 4.0)),
                })
                .collect(),
        ),
        ColumnData::Booleans(rows.map(|i| Some(i % 2 == 0)).collect()),
        ColumnData::Opaque,
    ]
}

fn numeric(stats: Option<&Stats>) -> NumericStats {
    match stats {
        Some(Stats::Numeric(s)) => *s,
        other => panic!("{other:?}"),
    }
}

fn text(stats: Option<&Stats>) -> TextStats {
    match stats {
        Some(Stats::Text(s)) => s.clone(),
        other => panic!("{other:?}"),
    }
}

#[test]
fn a_writer_counts_every_row_and_folds_every_value() {
    let mut writer = ChunkWriter::try_new(schema(), Format::Ragged);
    assert_eq!(writer.chunk_format(), Format::Ragged);
    for part in [0..10, 10..10, 10..37, 37..100] {
        let rows = (part.end - part.start) as usize;
        writer = writer.write(&schema(), rows, &values(part)).unwrap();
    }
    let (rows, stats) = writer.finalize();
    assert_eq!(rows, 100);
    assert_eq!(stats.len(), 5);
    let t = numeric(stats.get("timestamp"));
    assert_eq!((num(t.min), num(t.max), t.has_null, t.has_nan), (0.0, 99.0, false, false));
    let s = text(stats.get("sensor_id"));
    assert_eq!((s.min.as_str(), s.max.as_str(), s.has_null), ("s0", "s2", false));
    let x = numeric(stats.get("position.x"));
    assert_eq!((num(x.min), num(x.max), x.has_null, x.has_nan), (0.5, 24.75, true, true));
    let v = numeric(stats.get("valid"));
    assert_eq!((num(v.min), num(v.max), v.has_null, v.has_nan), (0.0, 1.0, false, false));
    assert!(matches!(stats.get("blob"), Some(Stats::Unsupported)));
}

#[test]
fn summaries_and_values_give_the_same_statistics() {
    let by_value = ChunkWriter::try_new(schema(), Format::Default)
        .write(&schema(), 60, &values(0..60))
        .unwrap()
        .write(&schema(), 40, &values(60..100))
        .unwrap();
    let summary = |rows: std::ops::Range<i64>| -> Vec<ColumnData> {
        let (_, stats) = ChunkWriter::try_new(schema(), Format::Default)
            .write(&schema(), (rows.end - rows.start) as usize, &values(rows))
            .unwrap()
            .finalize();
        let of = |name: &str| {
            let s = numeric(stats.get(name));
            ColumnData::NumericSummary { min: Some(s.min), max: Some(s.max), has_null: s.has_null, has_nan: s.has_nan }
        };
        let s = text(stats.get("sensor_id"));
        vec![
            of("timestamp"),
            ColumnData::TextSummary { least: Some(s.min), greatest: Some(s.max), nulls: s.has_null },
            of("position.x"),
            of("valid"),
            ColumnData::Opaque,
        ]
    };
    let by_summary = ChunkWriter::try_new(schema(), Format::Default)
        .write(&schema(), 60, &summary(0..60))
        .unwrap()
        .write(&schema(), 40, &summary(60..100))
        .unwrap();
    let (rows_a, a) = by_value.finalize();
    let (rows_b, b) = by_summary.finalize();
    assert_eq!((rows_a, rows_b), (100, 100));
    for name in ["timestamp", "sensor_id", "position.x", "valid", "blob"] {
        assert!(a.get(name).unwrap() == b.get(name).unwrap(), "{name}");
    }
}

#[test]
fn an_empty_chunk_keeps_the_sentinels() {
    let (rows, stats) = ChunkWriter::try_new(schema(), Format::Image).finalize();
    assert_eq!(rows, 0);
    let t = numeric(stats.get("timestamp"));
    assert_eq!((num(t.min), num(t.max)), (f64::MAX, f64::MIN));
    let s = text(stats.get("sensor_id"));
    assert_eq!((s.min.as_str(), s.max.as_str()), ("", ""));
    let (rows, stats) = ChunkWriter::try_new(ChunkSchema { columns: vec![] }, Format::Default)
        .write(&ChunkSchema { columns: vec![] }, 7, &vec![])
        .unwrap()
        .finalize();
    assert_eq!((rows, stats.len()), (7, 0));
}

#[test]
fn a_batch_of_another_schema_is_refused() {
    let other = |change: &dyn Fn(&mut ChunkSchema)| {
        let mut s = schema();
        change(&mut s);
        s
    };
    let wrong: Vec<ChunkSchema> = vec![
        other(&|s| s.columns[0].path = "time".into()),
        other(&|s| s.columns[0].leaf = LeafType::Float),
        other(&|s| s.columns[0].nullable = true),
        other(&|s| s.columns[2].path = "position.y".into()),
        other(&|s| s.columns.swap(0, 1)),
        other(&|s| {
            s.columns.pop();
        }),
        other(&|s| s.columns.push(column("extra", LeafType::Integer, false))),
        ChunkSchema { columns: vec![] },
    ];
    for batch in wrong {
        let writer = ChunkWriter::try_new(schema(), Format::Default);
        let err = writer.write(&batch, 10, &values(0..10)).unwrap_err();
        assert!(matches!(err, Error::SchemaMismatch));
        assert_eq!(err.to_string(), "schema mismatch");
    }
}

#[test]
fn data_of_another_form_is_refused() {
    let replace = |at: usize, with: ColumnData| {
        let mut data = values(0..10);
        data[at] = with;
        data
    };
    let wrong: Vec<Vec<ColumnData>> = vec![
        replace(0, ColumnData::Numbers(vec![Some(fl(1.0))])),
        replace(0, ColumnData::Opaque),
        replace(1, ColumnData::Integers(vec![Some(1)])),
        replace(1, ColumnData::NumericSummary { min: None, max: None, has_null: false, has_nan: false }),
        replace(2, ColumnData::Integers(vec![Some(1)])),
        replace(3, ColumnData::Texts(vec![None])),
        replace(4, ColumnData::Booleans(vec![None])),
        replace(2, ColumnData::TextSummary { least: None, greatest: None, nulls: true }),
        values(0..10).into_iter().take(4).collect(),
        vec![],
    ];
    for data in wrong {
        let writer = ChunkWriter::try_new(schema(), Format::Default);
        assert!(matches!(writer.write(&schema(), 10, &data), Err(Error::SchemaMismatch)));
    }
    let writer = ChunkWriter::try_new(schema(), Format::Default);
    let ok = replace(0, ColumnData::NumericSummary { min: Some(fl(1.0)), max: Some(fl(2.0)), has_null: false, has_nan: false });
    assert!(writer.write(&schema(), 10, &ok).is_ok());
}

#[test]
fn rows_are_counted_up_to_the_limit() {
    let empty = ChunkSchema { columns: vec![] };
    let writer = ChunkWriter::try_new(ChunkSchema { columns: vec![] }, Format::Default);
    let writer = writer.write(&empty, usize::MAX, &vec![]).unwrap();
    let err = writer.write(&empty, 1, &vec![]).unwrap_err();
    assert!(matches!(err, Error::TooManyRows));
    assert_eq!(err.to_string(), "too many rows");
}

#[test]
fn columns_of_one_path_share_an_entry() {
    let twice = || ChunkSchema {
        columns: vec![column("a", LeafType::Integer, false), column("a", LeafType::Text, false)],
    };
    let data = vec![ColumnData::Integers(vec![Some(3)]), ColumnData::Texts(vec![Some("t".into())])];
    let (rows, stats) = ChunkWriter::try_new(twice(), Format::Default).write(&twice(), 1, &data).unwrap().finalize();
    assert_eq!((rows, stats.len()), (1, 1));
    assert_eq!(text(stats.get("a")).min, "t");
}

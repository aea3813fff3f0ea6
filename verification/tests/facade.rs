use mosaicod::query::filter::{
    Expr, Filter, OntologyField, OntologyFilter, Op, SequenceFilter, TopicFilter, Value,
};
use mosaicod::repo::facades::facade_chunk::FacadeChunk;
use mosaicod::repo::facades::facade_error::FacadeError;
use mosaicod::repo::facades::facade_query::{
    chunk_topic_ids, pre_fetch_topics, ChunkScan, FacadeQuery, PreFetch, ScanStep, TopicMap,
};
use mosaicod::repo::sql_models::pg_queries::group::SequenceGrouping;
use mosaicod::repo::sql_models::records::{
    BadRange, Chunk, Column, ColumnChunkLiteral, ColumnChunkNumeric, SequenceRecord, TopicStats,
    UNREGISTERED,
};
use mosaicod::repo::sql_models::topic_record::TopicRecord;
use mosaicod::rw::format::Format;
use mosaicod::types::chunk::{ColumnsStats, NumericStats, Stats, TextStats};
use mosaicod::types::float::Float;
use mosaicod::types::groups::{SequenceTopicGroup, SequenceTopicGroups};
use mosaicod::types::resource::{ResourceId, SequenceResourceLocator, TopicResourceLocator, Uuid};
use mosaicod::types::timestamp::Timestamp;

fn fl(v: f64) -> Float {
    Float::from_bits(v.to_bits())
}

fn field(path: &str) -> OntologyField {
    OntologyField::try_new(path.into()).unwrap()
}

fn topic(id: i32, name: &str, sequence_id: i32, format: Option<&str>) -> TopicRecord {
    let mut t = TopicRecord::new(name, sequence_id, Timestamp::from(1_700_000_000_000));
    t.topic_id = id;
    match format {
        Some(f) => t.with_serialization_format(f),
        None => t,
    }
}

fn chunk(id: i32, topic_id: i32, file: &str) -> Chunk {
    let mut c = Chunk::new(topic_id, file);
    c.chunk_id = id;
    c
}

fn sequence(id: i32, name: &str) -> SequenceRecord {
    SequenceRecord {
        sequence_id: id,
        sequence_uuid: Uuid::from_u128(id as u128),
        locator_name: name.into(),
        locked: false,
        creation_unix_tstamp: 0,
    }
}

fn group(sequence: &str, topics: &[&str]) -> SequenceTopicGroup {
    SequenceTopicGroup::new(
        SequenceResourceLocator::from(sequence.to_string()),
        topics.iter().map(|t| TopicResourceLocator::from(t.to_string())).collect(),
    )
}

fn shape(groups: &SequenceTopicGroups) -> Vec<(String, Vec<String>)> {
    groups
        .groups
        .iter()
        .map(|g| (g.sequence.name().to_string(), g.topics.iter().map(|t| t.name().to_string()).collect()))
        .collect()
}

fn by_sequence(groups: &SequenceTopicGroups) -> Vec<(String, Vec<String>)> {
    let mut all = shape(groups);
    all.sort();
    all
}

fn names(v: &[(&str, &[&str])]) -> Vec<(String, Vec<String>)> {
    v.iter().map(|(s, ts)| (s.to_string(), ts.iter().map(|t| t.to_string()).collect())).collect()
}

#[test]
fn topic_record_builders() {
    let created = Timestamp::from(1234);
    let t = TopicRecord::new("seq/topic", 7, created);
    assert_eq!(t.topic_id, UNREGISTERED);
    assert_eq!(t.sequence_id, 7);
    assert_eq!(t.locator_name, "seq/topic");
    assert!(!t.is_locked());
    assert!(t.ontology_tag.is_none() && t.serialization_format.is_none() && t.user_metadata.is_none());
    assert_eq!(t.creation_timestamp(), created);
    assert_eq!(t.creation_timestamp().as_i64(), 1234);
    assert_eq!((t.topic_uuid.as_u128() >> 76) & 0xF, 4);
    assert_eq!((t.topic_uuid.as_u128() >> 62) & 0x3, 2);
    assert_ne!(t.topic_uuid, TopicRecord::new("seq/topic", 7, created).topic_uuid);
    let t = t
        .with_ontology_tag("imu")
        .with_serialization_format("ragged")
        .with_user_metadata("{\"k\":1}".to_string());
    assert_eq!(t.ontology_tag.as_deref(), Some("imu"));
    assert_eq!(t.serialization_format(), Some(Format::Ragged));
    assert_eq!(t.user_metadata.as_deref(), Some("{\"k\":1}"));
    assert_eq!(t.locator_name, "seq/topic");
    let id = t.topic_uuid;
    let r: ResourceId = t.into();
    assert_eq!(r, ResourceId { id: UNREGISTERED, uuid: id });
    let fixed = TopicRecord::with_uuid("a/b", 1, created, Uuid::from_u128(42));
    assert_eq!(fixed.topic_uuid.as_u128(), 42);
}

#[test]
fn topic_record_formats() {
    let t = topic(1, "s/t", 1, None);
    assert_eq!(t.serialization_format(), None);
    assert!(matches!(t.try_serialization_format(), Ok(None)));
    let t = topic(1, "s/t", 1, Some("image"));
    assert!(matches!(t.try_serialization_format(), Ok(Some(Format::Image))));
    let t = topic(1, "s/t", 1, Some("csv"));
    let err = t.try_serialization_format().unwrap_err();
    assert_eq!(err.to_string(), "unknown format `csv`");
}

#[test]
fn literal_rows_need_an_ordered_range() {
    let row = ColumnChunkLiteral::try_new(1, 2, "a".into(), "b".into(), true).unwrap();
    assert_eq!((row.column_id, row.chunk_id, row.min_value.as_str(), row.max_value.as_str(), row.has_null), (1, 2, "a", "b", true));
    assert!(ColumnChunkLiteral::try_new(1, 2, "a".into(), "a".into(), false).is_ok());
    assert!(ColumnChunkLiteral::try_new(1, 2, "".into(), "".into(), false).is_ok());
    assert_eq!(ColumnChunkLiteral::try_new(1, 2, "b".into(), "a".into(), false).unwrap_err(), BadRange);
    let n = ColumnChunkNumeric::new(3, 4, fl(1.0), fl(2.0), false, true);
    assert_eq!((n.column_id, n.chunk_id, n.min_value.to_bits(), n.max_value.to_bits(), n.has_null, n.has_nan), (3, 4, 1.0f64.to_bits(), 2.0f64.to_bits(), false, true));
    assert_eq!(TopicStats::default(), TopicStats { total_size_bytes: 0, total_row_count: 0 });
}

#[test]
fn chunk_statistics_go_into_two_batches() {
    let mut n = NumericStats::new();
    n.eval(&Some(fl(1.0)));
    n.eval(&Some(fl(5.0)));
    n.eval(&None);
    let mut t = TextStats::new();
    t.eval(&Some("b"));
    t.eval(&Some("a"));
    let cstats = ColumnsStats::empty()
        .insert("position.x".into(), Stats::Numeric(n))
        .insert("blob".into(), Stats::Unsupported)
        .insert("sensor_id".into(), Stats::Text(t))
        .insert("timestamp".into(), Stats::Numeric(NumericStats::new()));
    let mut facade = FacadeChunk::create(chunk(9, 1, "f.parquet"), cstats);
    let mut asked: Vec<String> = Vec::new();
    let mut next_id = 100;
    while let Some(name) = facade.next_column().map(str::to_string) {
        let column = Column { column_id: next_id, column_name: name.clone(), ontology_tag: "imu".into() };
        asked.push(name);
        next_id += 1;
        facade = facade.push_stats(&column).unwrap();
    }
    assert_eq!(asked, ["position.x", "sensor_id", "timestamp"]);
    let facade = facade.push_stats(&Column { column_id: 1, column_name: "late".into(), ontology_tag: "imu".into() }).unwrap();
    let batches = facade.finalize();
    assert_eq!(batches.numeric.len(), 2);
    assert_eq!(batches.literal.len(), 1);
    let first = &batches.numeric[0];
    assert_eq!((first.column_id, first.chunk_id, first.has_null, first.has_nan), (100, 9, true, false));
    assert_eq!((first.min_value.to_bits(), first.max_value.to_bits()), (1.0f64.to_bits(), 5.0f64.to_bits()));
    let second = &batches.numeric[1];
    assert_eq!((second.column_id, second.chunk_id), (102, 9));
    assert_eq!(second.min_value.to_bits(), f64::MAX.to_bits());
    let lit = &batches.literal[0];
    assert_eq!((lit.column_id, lit.chunk_id, lit.min_value.as_str(), lit.max_value.as_str(), lit.has_null), (101, 9, "a", "b", false));
}

#[test]
fn disordered_text_statistics_abort_the_batch() {
    let t = TextStats { min: "z".into(), max: "a".into(), has_null: false };
    let cstats = ColumnsStats::empty().insert("c".into(), Stats::Text(t));
    let facade = FacadeChunk::create(chunk(9, 1, "f.parquet"), cstats);
    let err = facade
        .push_stats(&Column { column_id: 1, column_name: "c".into(), ontology_tag: "t".into() })
        .unwrap_err();
    assert!(matches!(err, FacadeError::RepositoryError(_)));
    let empty = FacadeChunk::create(chunk(9, 1, "f.parquet"), ColumnsStats::empty());
    assert!(empty.next_column().is_none());
    let b = empty.finalize();
    assert!(b.numeric.is_empty() && b.literal.is_empty());
}

#[test]
fn topics_are_grouped_by_sequence() {
    let topics = [
        topic(1, "a/t1", 10, None),
        topic(2, "b/t1", 20, None),
        topic(3, "a/t2", 10, None),
        topic(4, "c/t1", 30, None),
        topic(5, "b/t2", 20, None),
    ];
    let mut grouping = SequenceGrouping::new();
    let mut asked: Vec<i32> = Vec::new();
    for t in &topics {
        if let Some(id) = grouping.offer(t) {
            asked.push(id);
            let name = match id {
                10 => "a",
                20 => "b",
                _ => "c",
            };
            grouping.open(&sequence(id, name), t);
        }
    }
    assert_eq!(asked, [10, 20, 30]);
    let groups: SequenceTopicGroups = grouping.into_groups().into();
    assert_eq!(
        by_sequence(&groups),
        names(&[("a", &["a/t1", "a/t2"]), ("b", &["b/t1", "b/t2"]), ("c", &["c/t1"])])
    );
    assert!(SequenceGrouping::new().into_groups().is_empty());
}

#[test]
fn a_sequence_with_a_known_number_replaces_its_group() {
    let mut grouping = SequenceGrouping::new();
    let t = topic(1, "a/t1", 10, None);
    assert_eq!(grouping.offer(&t), Some(10));
    grouping.open(&sequence(10, "a"), &t);
    grouping.open(&sequence(10, "a2"), &topic(2, "a/t9", 10, None));
    let groups: SequenceTopicGroups = grouping.into_groups().into();
    assert_eq!(shape(&groups), names(&[("a2", &["a/t9"])]));
}

#[test]
fn merge_intersects_sequences_and_unites_topics() {
    let a = SequenceTopicGroups::from(vec![group("alpha", &["alpha/a", "alpha/b"]), group("beta", &["beta/a"]), group("gamma", &[])]);
    let b = SequenceTopicGroups::from(vec![group("gamma", &["gamma/x"]), group("alpha", &["alpha/b", "alpha/c"]), group("delta", &["delta/a"])]);
    let m = a.merge(b);
    assert_eq!(shape(&m), names(&[("alpha", &["alpha/a", "alpha/b", "alpha/c"]), ("gamma", &["gamma/x"])]));
    let e = SequenceTopicGroups::empty().merge(SequenceTopicGroups::from(vec![group("alpha", &["t"])]));
    assert!(e.groups.is_empty());
    let e = SequenceTopicGroups::from(vec![group("alpha", &["t"])]).merge(SequenceTopicGroups::default());
    assert!(e.groups.is_empty());
}

fn sets(groups: &SequenceTopicGroups) -> std::collections::BTreeMap<String, std::collections::BTreeSet<String>> {
    let mut m = std::collections::BTreeMap::new();
    for (s, ts) in shape(groups) {
        let e: &mut std::collections::BTreeSet<String> = m.entry(s).or_default();
        e.extend(ts);
    }
    m
}

#[test]
fn merge_commutes_and_associates_as_sets() {
    let make = |k: usize| match k {
        0 => SequenceTopicGroups::from(vec![group("alpha", &["a"]), group("beta", &["b"]), group("gamma", &["c"])]),
        1 => SequenceTopicGroups::from(vec![group("beta", &["b", "d"]), group("gamma", &[]), group("omega", &["z"])]),
        _ => SequenceTopicGroups::from(vec![group("gamma", &["e"]), group("beta", &["f"]), group("beta", &["g"])]),
    };
    for i in 0..3 {
        for j in 0..3 {
            assert_eq!(sets(&make(i).merge(make(j))), sets(&make(j).merge(make(i))));
            for k in 0..3 {
                assert_eq!(
                    sets(&make(i).merge(make(j)).merge(make(k))),
                    sets(&make(i).merge(make(j).merge(make(k))))
                );
            }
        }
    }
}

#[test]
fn ontology_split() {
    let filter = Filter {
        sequence: None,
        topic: None,
        ontology: Some(OntologyFilter::new(vec![
            Expr(field("image.width"), Op::Eq(Value::Integer(1200))),
            Expr(field("imu.acceleration.x"), Op::Geq(Value::Float(fl(8.0)))),
        ])),
    };
    let plan = FacadeQuery::plan(filter);
    assert!(plan.no_topic_filter);
    let groups = plan.groups.unwrap();
    assert_eq!(groups.len(), 2);
    assert_eq!(groups[0].group.len(), 1);
    assert_eq!(groups[0].group[0].ontology_field().ontology_tag(), "image");
    assert_eq!(groups[1].group.len(), 1);
    assert_eq!(groups[1].group[0].ontology_field().ontology_tag(), "imu");
    let image = SequenceTopicGroups::from(vec![group("alpha", &["alpha/cam"]), group("beta", &["beta/cam"])]);
    let imu = SequenceTopicGroups::from(vec![group("beta", &["beta/imu"]), group("gamma", &["gamma/imu"])]);
    let result = FacadeQuery::accumulate(None, image);
    let result = FacadeQuery::accumulate(Some(result), imu);
    let result = FacadeQuery::conclude(Some(result));
    assert_eq!(shape(&result), names(&[("beta", &["beta/cam", "beta/imu"])]));
    assert!(FacadeQuery::conclude(None).groups.is_empty());
}

#[test]
fn plans_tell_whether_topics_are_constrained() {
    assert!(FacadeQuery::plan(Filter::default()).no_topic_filter);
    assert!(FacadeQuery::plan(Filter::default()).groups.is_none());
    let empty_filters = Filter {
        sequence: Some(SequenceFilter { name: None, creation: None, user_metadata: None }),
        topic: Some(TopicFilter::default()),
        ontology: Some(OntologyFilter::empty()),
    };
    let plan = FacadeQuery::plan(empty_filters);
    assert!(plan.no_topic_filter);
    assert!(plan.sequence.is_some() && plan.topic.is_some());
    assert!(plan.groups.unwrap().is_empty());
    let by_name = Filter {
        sequence: Some(SequenceFilter { name: Some(Op::Eq("s".into())), creation: None, user_metadata: None }),
        topic: None,
        ontology: None,
    };
    assert!(!FacadeQuery::plan(by_name).no_topic_filter);
    let by_tag = Filter {
        sequence: None,
        topic: Some(TopicFilter { ontology_tag: Some(Op::Eq("imu".into())), ..TopicFilter::default() }),
        ontology: None,
    };
    assert!(!FacadeQuery::plan(by_tag).no_topic_filter);
}

#[test]
fn topic_maps_keep_the_last_record_of_a_number() {
    let map = TopicMap::from_records(vec![
        topic(1, "s/a", 1, None),
        topic(2, "s/b", 1, None),
        topic(1, "s/a2", 1, None),
    ]);
    assert_eq!(map.get(1).unwrap().locator_name, "s/a2");
    assert_eq!(map.get(2).unwrap().locator_name, "s/b");
    assert!(map.get(3).is_none());
    let all = ChunkScan::new(vec![chunk(1, 1, "a"), chunk(2, 2, "b")], map).record(true).record(true);
    let mut names: Vec<String> = all.matched().into_iter().map(|t| t.locator_name.clone()).collect();
    names.sort();
    assert_eq!(names, ["s/a2", "s/b"]);
    assert!(TopicMap::new().get(1).is_none());
    let m = TopicMap::new().insert(topic(5, "x", 1, None));
    assert_eq!(m.get(5).unwrap().locator_name, "x");
}

#[test]
fn topics_are_fetched_once_for_all_chunks() {
    let chunks = vec![chunk(1, 7, "a"), chunk(2, 8, "b"), chunk(3, 7, "c")];
    assert_eq!(chunk_topic_ids(&chunks), [7, 8, 7]);
    assert!(chunk_topic_ids(&vec![]).is_empty());
    match pre_fetch_topics(&chunks, None) {
        PreFetch::Fetch(ids) => assert_eq!(ids, [7, 8, 7]),
        PreFetch::Ready(_) => unreachable!(),
    }
    match pre_fetch_topics(&chunks, Some(vec![topic(7, "s/a", 1, None)])) {
        PreFetch::Ready(map) => {
            assert!(map.get(7).is_some());
            assert!(map.get(8).is_none());
        }
        PreFetch::Fetch(_) => unreachable!(),
    }
}

fn run_scan(chunks: Vec<Chunk>, topics: Vec<TopicRecord>, rows: &[bool]) -> (Vec<String>, Result<Vec<String>, String>) {
    let mut scan = ChunkScan::new(chunks, TopicMap::from_records(topics));
    let mut probed: Vec<String> = Vec::new();
    let mut answers = rows.iter();
    loop {
        match scan.step() {
            Ok(ScanStep::Probe { data_file, format }) => {
                probed.push(format!("{data_file}:{}", format.to_string()));
                scan = scan.record(*answers.next().unwrap());
            }
            Ok(ScanStep::Abandon) => return (probed, Ok(vec!["<abandoned>".to_string()])),
            Ok(ScanStep::Done) => {
                let before = scan.step();
                assert!(matches!(before, Ok(ScanStep::Done)));
                scan = scan.record(true);
                let mut names: Vec<String> = scan.matched().into_iter().map(|t| t.locator_name.clone()).collect();
                names.sort();
                return (probed, Ok(names));
            }
            Err(e) => return (probed, Err(e.to_string())),
        }
    }
}

#[test]
fn only_candidate_chunks_are_read() {
    let stats = |min: f64, max: f64| {
        let mut s = NumericStats::new();
        s.merge(Some(fl(min)), Some(fl(max)), false, false);
        ColumnsStats::empty().insert("x".into(), Stats::Numeric(s))
    };
    let catalog = [
        (chunk(1, 1, "c1.parquet"), stats(0.0, 10.0)),
        (chunk(2, 1, "c2.parquet"), stats(10.0, 20.0)),
        (chunk(3, 2, "c3.parquet"), stats(20.0, 30.0)),
    ];
    let group = mosaicod::query::filter::ExprGroup::new(vec![Expr(
        field("position.x"),
        Op::Between(mosaicod::query::filter::Range::try_new(Value::Integer(22), Value::Integer(25)).unwrap()),
    )]);
    let candidates: Vec<Chunk> = catalog
        .iter()
        .filter(|(_, s)| mosaicod::query::catalog::chunk_may_match(&group, s))
        .map(|(c, _)| c.clone())
        .collect();
    let topics = vec![topic(1, "s/t1", 1, Some("default")), topic(2, "s/t2", 1, Some("default"))];
    let (probed, matched) = run_scan(candidates, topics, &[true]);
    assert_eq!(probed, ["c3.parquet:default"]);
    assert_eq!(matched.unwrap(), ["s/t2"]);
}

#[test]
fn a_topic_has_data_when_one_of_its_chunks_matches() {
    let chunks = vec![chunk(1, 1, "a"), chunk(2, 2, "b"), chunk(3, 1, "c"), chunk(4, 3, "d"), chunk(5, 2, "e")];
    let topics = vec![
        topic(3, "s/t3", 1, Some("image")),
        topic(1, "s/t1", 1, Some("default")),
        topic(2, "s/t2", 1, Some("ragged")),
    ];
    let (probed, matched) = run_scan(chunks, topics, &[false, true, true, false, true]);
    assert_eq!(probed, ["a:default", "b:ragged", "c:default", "d:image", "e:ragged"]);
    assert_eq!(matched.unwrap(), ["s/t1", "s/t2"]);
    let (probed, matched) = run_scan(vec![], vec![topic(1, "s/t1", 1, Some("default"))], &[]);
    assert!(probed.is_empty());
    assert!(matched.unwrap().is_empty());
}

#[test]
fn a_chunk_without_topic_abandons_the_group() {
    let chunks = vec![chunk(1, 1, "a"), chunk(2, 9, "b"), chunk(3, 1, "c")];
    let topics = vec![topic(1, "s/t1", 1, Some("default"))];
    let (probed, matched) = run_scan(chunks, topics, &[true]);
    assert_eq!(probed, ["a:default"]);
    assert_eq!(matched.unwrap(), ["<abandoned>"]);
}

#[test]
fn a_topic_with_data_needs_a_format() {
    let chunks = vec![chunk(1, 1, "a")];
    let (_, matched) = run_scan(chunks.clone(), vec![topic(1, "s/t1", 1, None)], &[]);
    assert_eq!(matched.unwrap_err(), "missing serialization format for topic `s/t1`");
    let (_, matched) = run_scan(chunks, vec![topic(1, "s/t1", 1, Some("csv"))], &[]);
    assert_eq!(matched.unwrap_err(), "data serialization error :: unknown format `csv`");
}

#[test]
fn facade_error_messages() {
    let cases: Vec<(FacadeError, &str)> = vec![
        (FacadeError::NotFound("x".into()), "unable to find data: x"),
        (FacadeError::MissingMetadataField("f".into()), "missing metadata field `f`"),
        (FacadeError::ReadError { src: "s".into(), msg: "m".into() }, "error reading s: m"),
        (FacadeError::WriteError { dst: "d".into(), msg: "m".into() }, "error writing to d data: m"),
        (FacadeError::StoreError("e".into()), "store error :: e"),
        (FacadeError::MetadataError("e".into()), "metadata error :: e"),
        (FacadeError::RepositoryError("e".into()), "repository error :: e"),
        (FacadeError::SequenceLocked, "sequence locked, unable to perform modifications"),
        (FacadeError::ConcurrencyError("e".into()), "concurrecy error :: e"),
        (
            FacadeError::from(mosaicod::query::error::Error::BadField { field: "q".into() }),
            "query error :: bad field `q`",
        ),
        (
            FacadeError::from(mosaicod::rw::error::Error::SchemaMismatch),
            "data serialization error :: schema mismatch",
        ),
        (FacadeError::TopicLocked, "topic locked, unable to perform modifications"),
        (
            FacadeError::TopicUnlocked,
            "topic unlocked, unable to perform the requested operation over an unlocked topic",
        ),
        (FacadeError::Unimplemented, "unimplemented"),
        (FacadeError::Unauthorized, "unauthorized"),
    ];
    for (e, message) in cases {
        assert_eq!(e.to_string(), message);
    }
}

#[test]
fn every_topic_with_data_is_matched_once() {
    let topics: Vec<TopicRecord> =
        (1..=40).map(|i| topic(i, &format!("s/t{i:02}"), i % 7, Some("default"))).collect();
    let chunks: Vec<Chunk> = (1..=40).map(|i| chunk(i, i, &format!("c{i}"))).collect();
    let rows: Vec<bool> = (1..=40).map(|i| i % 3 == 0).collect();
    let (probed, matched) = run_scan(chunks, topics, &rows);
    assert_eq!(probed.len(), 40);
    let expected: Vec<String> = (1..=40).filter(|i| i % 3 == 0).map(|i| format!("s/t{i:02}")).collect();
    assert_eq!(matched.unwrap(), expected);
}

#[test]
fn every_sequence_has_one_group_with_its_topics_in_order() {
    let topics: Vec<TopicRecord> =
        (0..60).map(|i| topic(i, &format!("q{}/t{i:02}", i % 9), i % 9, None)).collect();
    let mut grouping = SequenceGrouping::new();
    let mut asked: Vec<i32> = Vec::new();
    for t in &topics {
        if let Some(id) = grouping.offer(t) {
            asked.push(id);
            grouping.open(&sequence(id, &format!("q{id}")), t);
        }
    }
    assert_eq!(asked, (0..9).collect::<Vec<i32>>());
    let groups: SequenceTopicGroups = grouping.into_groups().into();
    let expected: Vec<(String, Vec<String>)> = (0..9)
        .map(|s| {
            (format!("q{s}"), (0..60).filter(|i| i % 9 == s).map(|i| format!("q{s}/t{i:02}")).collect())
        })
        .collect();
    assert_eq!(by_sequence(&groups), expected);
}

use mosaicod::query::catalog::{chunk_may_match, may_match, never_matches, validate, ColumnRange};
use mosaicod::query::error::OpError;
use mosaicod::query::filter::{Expr, ExprGroup, OntologyField, Op, Range, Value};
use mosaicod::repo::sql_models::pg_queries::data_catalog::{
    bind_values, topic_ids, Bind, ChunkQueryBuilder,
};
use mosaicod::repo::sql_models::topic_record::TopicRecord;
use mosaicod::types::chunk::{ColumnsStats, NumericStats, Stats, TextStats};
use mosaicod::types::float::Float;
use mosaicod::types::timestamp::Timestamp;

fn fl(v: f64) -> Float {
    Float::from_bits(v.to_bits())
}

fn vf(v: f64) -> Value {
    Value::Float(fl(v))
}

fn numeric(min: f64, max: f64) -> ColumnRange {
    ColumnRange::Numeric(fl(min), fl(max))
}

fn literal(min: &str, max: &str) -> ColumnRange {
    ColumnRange::Literal(min.into(), max.into())
}

fn between(a: Value, b: Value) -> Op<Value> {
    Op::Between(Range::try_new(a, b).unwrap())
}

fn field(path: &str) -> OntologyField {
    OntologyField::try_new(path.into()).unwrap()
}

fn stats_of(column: &str, min: f64, max: f64) -> ColumnsStats {
    let mut s = NumericStats::new();
    s.merge(Some(fl(min)), Some(fl(max)), false, false);
    ColumnsStats::empty().insert(column.into(), Stats::Numeric(s))
}

#[test]
fn catalog_pruning() {
    let chunks = [
        stats_of("position.x", 0.0, 10.0),
        stats_of("position.x", 10.0, 20.0),
        stats_of("position.x", 20.0, 30.0),
    ];
    let group = || {
        ExprGroup::new(vec![Expr(field("pose.position.x"), between(vf(22.0), vf(25.0)))])
    };
    let kept: Vec<bool> = chunks.iter().map(|c| chunk_may_match(&group(), c)).collect();
    assert_eq!(kept, [false, false, true]);
    let group =
        ExprGroup::new(vec![Expr(field("pose.position.x"), between(Value::Integer(22), Value::Integer(25)))]);
    let kept: Vec<bool> = chunks.iter().map(|c| chunk_may_match(&group, c)).collect();
    assert_eq!(kept, [false, false, true]);
}

#[test]
fn retention_table_on_numbers() {
    let r = numeric(10.0, 20.0);
    let r = Some(&r);
    let cases: Vec<(Op<Value>, bool)> = vec![
        (Op::Eq(vf(10.0)), true),
        (Op::Eq(vf(15.0)), true),
        (Op::Eq(vf(20.0)), true),
        (Op::Eq(vf(9.9)), false),
        (Op::Eq(vf(20.1)), false),
        (Op::Eq(Value::Integer(20)), true),
        (Op::Eq(Value::Integer(21)), false),
        (Op::Eq(Value::Boolean(true)), false),
        (Op::Eq(vf(f64::NAN)), false),
        (Op::Eq(Value::text("15")), false),
        (Op::Neq(vf(15.0)), true),
        (Op::Neq(vf(10.0)), true),
        (Op::Leq(vf(10.0)), true),
        (Op::Leq(vf(9.0)), false),
        (Op::Geq(vf(20.0)), true),
        (Op::Geq(vf(21.0)), false),
        (Op::Lt(vf(10.0)), false),
        (Op::Lt(vf(10.5)), true),
        (Op::Gt(vf(20.0)), false),
        (Op::Gt(vf(19.5)), true),
        (between(vf(0.0), vf(9.0)), false),
        (between(vf(0.0), vf(10.0)), true),
        (between(vf(20.0), vf(99.0)), true),
        (between(vf(21.0), vf(99.0)), false),
        (between(vf(12.0), vf(13.0)), true),
        (Op::In(vec![vf(1.0), vf(2.0)]), false),
        (Op::In(vec![vf(1.0), vf(12.0)]), true),
        (Op::In(vec![]), false),
        (Op::Ex, true),
        (Op::Nex, true),
        (Op::Match(Value::text("%")), true),
    ];
    for (op, kept) in cases {
        assert_eq!(may_match(&op, r), kept, "{op:?}");
    }
}

#[test]
fn retention_of_single_valued_columns() {
    let r = numeric(7.0, 7.0);
    assert!(!may_match(&Op::Neq(vf(7.0)), Some(&r)));
    assert!(may_match(&Op::Neq(vf(8.0)), Some(&r)));
    assert!(may_match(&Op::Eq(vf(7.0)), Some(&r)));
    let r = numeric(1.0, 1.0);
    assert!(may_match(&Op::Eq(Value::Boolean(true)), Some(&r)));
    assert!(!may_match(&Op::Eq(Value::Boolean(false)), Some(&r)));
    assert!(!may_match(&Op::Neq(Value::Boolean(true)), Some(&r)));
}

#[test]
fn retention_table_on_text() {
    let r = literal("imu_front", "imu_rear");
    let r = Some(&r);
    assert!(may_match(&Op::Eq(Value::text("imu_front")), r));
    assert!(may_match(&Op::Eq(Value::text("imu_mid")), r));
    assert!(!may_match(&Op::Eq(Value::text("camera")), r));
    assert!(!may_match(&Op::Eq(Value::text("lidar")), r));
    assert!(!may_match(&Op::Eq(Value::Integer(1)), r));
    assert!(may_match(&Op::In(vec![Value::text("a"), Value::text("imu_rear")]), r));
    assert!(!may_match(&Op::In(vec![Value::text("a"), Value::text("z")]), r));
    assert!(may_match(&Op::Match(Value::text("zzz%")), r));
    assert!(may_match(&Op::Neq(Value::text("imu_front")), r));
}

#[test]
fn columns_without_bounds_keep_only_what_is_never_refuted() {
    assert!(!may_match(&Op::Eq(vf(1.0)), None));
    assert!(!may_match(&Op::Neq(vf(1.0)), None));
    assert!(!may_match(&Op::In(vec![vf(1.0)]), None));
    assert!(may_match(&Op::Ex, None));
    assert!(may_match(&Op::Nex, None));
    assert!(may_match(&Op::Match(Value::text("a")), None));
    assert!(ColumnRange::from_stats(&Stats::Unsupported).is_none());
    let mut t = TextStats::new();
    t.eval(&Some("b"));
    assert!(matches!(ColumnRange::from_stats(&Stats::Text(t)), Some(ColumnRange::Literal(a, b)) if a == "b" && b == "b"));
}

#[test]
fn unobserved_columns_are_refuted() {
    let stats = ColumnsStats::empty().insert("x".into(), Stats::Numeric(NumericStats::new()));
    for op in [Op::Eq(vf(0.0)), Op::Geq(vf(0.0)), Op::Leq(vf(0.0)), Op::Gt(vf(-1.0e9))] {
        let group = ExprGroup::new(vec![Expr(field("t.x"), op)]);
        assert!(!chunk_may_match(&group, &stats));
    }
    let group = ExprGroup::new(vec![Expr(field("t.x"), Op::Ex)]);
    assert!(chunk_may_match(&group, &stats));
}

#[test]
fn a_chunk_is_kept_when_every_test_keeps_it() {
    let mut s = NumericStats::new();
    s.merge(Some(fl(0.0)), Some(fl(999.0)), false, false);
    let mut t = TextStats::new();
    t.eval(&Some("imu_front"));
    t.eval(&Some("imu_rear"));
    let stats = ColumnsStats::empty()
        .insert("timestamp".into(), Stats::Numeric(s))
        .insert("sensor_id".into(), Stats::Text(t))
        .insert("blob".into(), Stats::Unsupported);
    let group = |ts: i64, id: &str| {
        ExprGroup::new(vec![
            Expr(field("imu.timestamp"), Op::Geq(Value::Integer(ts))),
            Expr(field("imu.sensor_id"), Op::Eq(Value::text(id))),
        ])
    };
    assert!(chunk_may_match(&group(500, "imu_front"), &stats));
    assert!(!chunk_may_match(&group(1000, "imu_front"), &stats));
    assert!(!chunk_may_match(&group(500, "camera"), &stats));
    let group = ExprGroup::new(vec![Expr(field("imu.blob"), Op::Eq(Value::Integer(1)))]);
    assert!(!chunk_may_match(&group, &stats));
    let group = ExprGroup::new(vec![Expr(field("imu.missing"), Op::Eq(Value::Integer(1)))]);
    assert!(!chunk_may_match(&group, &stats));
    assert!(chunk_may_match(&ExprGroup::<Value>::default(), &stats));
}

#[test]
fn unsupported_tests_are_rejected_before_the_catalog_is_asked() {
    let ok = ExprGroup::new(vec![
        Expr(field("a.x"), Op::Eq(Value::text("v"))),
        Expr(field("a.y"), Op::Lt(Value::Integer(1))),
    ]);
    assert!(validate(&ok).is_ok());
    let bad = ExprGroup::new(vec![
        Expr(field("a.x"), Op::Eq(Value::text("v"))),
        Expr(field("a.y"), Op::Lt(Value::text("w"))),
    ]);
    assert!(matches!(validate(&bad), Err(OpError::UnsupportedOperation)));
    assert!(validate(&ExprGroup::<Value>::default()).is_ok());
}

#[test]
fn the_empty_set_matches_nothing() {
    let g = ExprGroup::new(vec![Expr(field("a.x"), Op::Ex), Expr(field("a.y"), Op::In(vec![]))]);
    assert!(never_matches(&g));
    assert!(!chunk_may_match(&g, &stats_of("y", 0.0, 1.0)));
    let g = ExprGroup::new(vec![Expr(field("a.y"), Op::In(vec![Value::Integer(1)]))]);
    assert!(!never_matches(&g));
    assert!(!never_matches(&ExprGroup::<Value>::default()));
}

#[test]
fn booleans_are_bound_as_numbers() {
    let binds = bind_values(vec![
        Value::Integer(-3),
        vf(2.5),
        Value::text("t"),
        Value::Boolean(true),
        Value::Boolean(false),
    ]);
    assert_eq!(binds.len(), 5);
    assert!(matches!(&binds[0], Bind::Integer(-3)));
    assert!(matches!(&binds[1], Bind::Float(f) if f.to_bits() == 2.5f64.to_bits()));
    assert!(matches!(&binds[2], Bind::Text(t) if t == "t"));
    assert!(matches!(&binds[3], Bind::Float(f) if f.to_bits() == 1.0f64.to_bits()));
    assert!(matches!(&binds[4], Bind::Float(f) if f.to_bits() == 0.0f64.to_bits()));
    assert!(bind_values(vec![]).is_empty());
}

#[test]
fn topic_numbers_of_a_restricted_search() {
    let t = |id: i32| {
        let mut r = TopicRecord::new("s/t", 1, Timestamp::from(0));
        r.topic_id = id;
        r
    };
    assert!(topic_ids(None).is_empty());
    assert!(topic_ids(Some(&vec![])).is_empty());
    assert_eq!(topic_ids(Some(&vec![t(3), t(-1), t(i32::MAX), t(3)])), [3, -1, i32::MAX as i64, 3]);
}

const HEAD_NUMERIC: &str = "EXISTS (SELECT 1 FROM column_chunk_numeric_t s JOIN column_t c ON c.column_id = s.column_id WHERE s.chunk_id = chunk_t.chunk_id AND c.column_name = ";
const HEAD_LITERAL: &str = "EXISTS (SELECT 1 FROM column_chunk_literal_t s JOIN column_t c ON c.column_id = s.column_id WHERE s.chunk_id = chunk_t.chunk_id AND c.column_name = ";

fn texts(values: &[Value]) -> Vec<String> {
    values.iter().map(|v| format!("{v:?}")).collect()
}

#[test]
fn query_for_candidate_chunks() {
    let group = ExprGroup::new(vec![
        Expr(field("imu.acceleration.x"), Op::Geq(vf(8.0))),
        Expr(field("imu.sensor_id"), Op::Eq(Value::text("front"))),
        Expr(field("imu.flag"), Op::Ex),
        Expr(field("imu.n"), between(Value::Integer(1), Value::Integer(9))),
        Expr(field("imu.k"), Op::In(vec![Value::Integer(4), Value::Integer(5)])),
    ]);
    let (query, values) = ChunkQueryBuilder::build(group, vec![7, 11, 12]).unwrap();
    let expected = format!(
        "SELECT chunk_t.* FROM chunk_t WHERE TRUE \
         AND {n}$1 AND c.ontology_tag = $2 AND (s.max_value >= $3)) \
         AND {l}$4 AND c.ontology_tag = $5 AND ((s.min_value <= $6 AND s.max_value >= $6))) \
         AND TRUE \
         AND {n}$7 AND c.ontology_tag = $8 AND (s.max_value >= $9 AND s.min_value <= $10)) \
         AND {n}$11 AND c.ontology_tag = $12 AND (FALSE OR (s.min_value <= $13 AND s.max_value >= $13) OR (s.min_value <= $14 AND s.max_value >= $14))) \
         AND chunk_t.topic_id IN ($15, $16, $17)",
        n = HEAD_NUMERIC,
        l = HEAD_LITERAL
    );
    assert_eq!(query, expected);
    assert_eq!(
        texts(&values),
        texts(&[
            Value::text("acceleration.x"),
            Value::text("imu"),
            vf(8.0),
            Value::text("sensor_id"),
            Value::text("imu"),
            Value::text("front"),
            Value::text("n"),
            Value::text("imu"),
            Value::Integer(1),
            Value::Integer(9),
            Value::text("k"),
            Value::text("imu"),
            Value::Integer(4),
            Value::Integer(5),
            Value::Integer(7),
            Value::Integer(11),
            Value::Integer(12),
        ])
    );
}

#[test]
fn query_for_candidate_chunks_edge_cases() {
    let (query, values) = ChunkQueryBuilder::build(ExprGroup::default(), vec![]).unwrap();
    assert_eq!(query, "SELECT chunk_t.* FROM chunk_t WHERE TRUE");
    assert!(values.is_empty());
    let (query, values) = ChunkQueryBuilder::build(ExprGroup::default(), vec![5]).unwrap();
    assert_eq!(query, "SELECT chunk_t.* FROM chunk_t WHERE TRUE AND chunk_t.topic_id IN ($1)");
    assert_eq!(texts(&values), texts(&[Value::Integer(5)]));
    let group = ExprGroup::new(vec![Expr(field("a.x"), Op::In(vec![]))]);
    let (query, values) = ChunkQueryBuilder::build(group, vec![]).unwrap();
    assert_eq!(
        query,
        format!("SELECT chunk_t.* FROM chunk_t WHERE TRUE AND {HEAD_NUMERIC}$1 AND c.ontology_tag = $2 AND (FALSE))")
    );
    assert_eq!(texts(&values), texts(&[Value::text("x"), Value::text("a")]));
    let ops: Vec<(Op<Value>, &str)> = vec![
        (Op::Neq(vf(1.0)), "NOT (s.min_value = $3 AND s.max_value = $3)"),
        (Op::Leq(vf(1.0)), "s.min_value <= $3"),
        (Op::Lt(vf(1.0)), "s.min_value < $3"),
        (Op::Gt(vf(1.0)), "s.max_value > $3"),
    ];
    for (op, test) in ops {
        let group = ExprGroup::new(vec![Expr(field("a.x"), op)]);
        let (query, _) = ChunkQueryBuilder::build(group, vec![]).unwrap();
        assert_eq!(
            query,
            format!("SELECT chunk_t.* FROM chunk_t WHERE TRUE AND {HEAD_NUMERIC}$1 AND c.ontology_tag = $2 AND ({test}))")
        );
    }
    let group = ExprGroup::new(vec![
        Expr(field("a.x"), Op::Eq(Value::Integer(1))),
        Expr(field("a.y"), Op::Match(Value::Integer(1))),
    ]);
    let err = ChunkQueryBuilder::build(group, vec![1]).unwrap_err();
    assert_eq!(err.to_string(), "unsupported operation");
}

#[test]
fn many_parameters_are_numbered_in_decimal() {
    let items: Vec<Value> = (0..120).map(Value::Integer).collect();
    let group = ExprGroup::new(vec![Expr(field("a.x"), Op::In(items))]);
    let (query, values) = ChunkQueryBuilder::build(group, vec![1, 2]).unwrap();
    assert_eq!(values.len(), 124);
    assert!(query.contains("(s.min_value <= $9 AND s.max_value >= $9) OR (s.min_value <= $10 AND s.max_value >= $10)"));
    assert!(query.contains("OR (s.min_value <= $122 AND s.max_value >= $122)))"));
    assert!(query.ends_with(" AND chunk_t.topic_id IN ($123, $124)"));
}

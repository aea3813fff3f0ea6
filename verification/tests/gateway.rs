use mosaicod::query::filter::{Expr, ExprGroup, OntologyField, Op, Range, Value};
use mosaicod::query::timeseries_gw::{
    expr_group_to_df_expr, expr_to_df_expr, get_listing_options, split_dots, unfold_field,
    value_to_df_expr, DfExpr, Operator, RowLimit, TimeseriesGw, TimeseriesGwResult,
};
use mosaicod::rw::format::Format;
use mosaicod::types::float::Float;

fn field(path: &str) -> OntologyField {
    OntologyField::try_new(path.into()).unwrap()
}

fn show(e: &DfExpr) -> String {
    match e {
        DfExpr::Column(name) => format!("col({name})"),
        DfExpr::Field(base, name) => format!("{}.field({name})", show(base)),
        DfExpr::Literal(Value::Integer(v)) => format!("lit({v})"),
        DfExpr::Literal(Value::Float(v)) => format!("lit({:?})", f64::from_bits(v.to_bits())),
        DfExpr::Literal(Value::Text(v)) => format!("lit({v:?})"),
        DfExpr::Literal(Value::Boolean(v)) => format!("lit({v})"),
        DfExpr::Binary(l, op, r) => format!("({} {op:?} {})", show(l), show(r)),
        DfExpr::InList(e, list, negated) => {
            let items: Vec<String> = list.iter().map(|v| show(&DfExpr::Literal(v.clone()))).collect();
            format!("{}.in_list([{}], {negated})", show(e), items.join(", "))
        }
        DfExpr::Like(e, p) => format!("{}.like({})", show(e), show(p)),
    }
}

#[test]
fn fields_are_split_at_every_dot() {
    assert_eq!(split_dots("a.b.c"), ["a", "b", "c"]);
    assert_eq!(split_dots("abc"), ["abc"]);
    assert_eq!(split_dots(""), [""]);
    assert_eq!(split_dots("."), ["", ""]);
    assert_eq!(split_dots("a..b."), ["a", "", "b", ""]);
    assert_eq!(split_dots("é.ü"), ["é", "ü"]);
}

#[test]
fn nested_fields_become_field_accessors() {
    assert_eq!(show(&unfold_field(&field("imu.acceleration.x"))), "col(acceleration).field(x)");
    assert_eq!(show(&unfold_field(&field("image.width"))), "col(width)");
    assert_eq!(show(&unfold_field(&field("a.b.c.d"))), "col(b).field(c).field(d)");
    assert_eq!(show(&unfold_field(&field("image."))), "col()");
}

#[test]
fn values_become_literals() {
    assert_eq!(show(&value_to_df_expr(Value::Integer(5))), "lit(5)");
    assert_eq!(show(&value_to_df_expr(Value::Float(Float::from_bits(1.5f64.to_bits())))), "lit(1.5)");
    assert_eq!(show(&value_to_df_expr(Value::text("x"))), "lit(\"x\")");
    assert_eq!(show(&value_to_df_expr(Value::Boolean(true))), "lit(true)");
}

#[test]
fn each_operator_has_its_expression() {
    let f = field("t.c");
    let cases: Vec<(Op<Value>, Option<&str>)> = vec![
        (Op::Eq(Value::Integer(1)), Some("(col(c) Eq lit(1))")),
        (Op::Neq(Value::Integer(1)), Some("(col(c) NotEq lit(1))")),
        (Op::Leq(Value::Integer(1)), Some("(col(c) LtEq lit(1))")),
        (Op::Geq(Value::Integer(1)), Some("(col(c) GtEq lit(1))")),
        (Op::Lt(Value::Integer(1)), Some("(col(c) Lt lit(1))")),
        (Op::Gt(Value::Integer(1)), Some("(col(c) Gt lit(1))")),
        (Op::Ex, None),
        (Op::Nex, None),
        (
            Op::Between(Range::try_new(Value::Integer(1), Value::Integer(9)).unwrap()),
            Some("((col(c) LtEq lit(9)) And (col(c) GtEq lit(1)))"),
        ),
        (
            Op::In(vec![Value::Integer(1), Value::Integer(2)]),
            Some("col(c).in_list([lit(1), lit(2)], false)"),
        ),
        (Op::In(vec![]), Some("col(c).in_list([], false)")),
        (Op::Match(Value::text("a%")), Some("col(c).like(lit(\"a%\"))")),
    ];
    for (op, expected) in cases {
        let got = expr_to_df_expr(&f, op).map(|e| show(&e));
        assert_eq!(got.as_deref(), expected);
    }
}

#[test]
fn a_group_becomes_the_conjunction_of_its_tests() {
    let group = ExprGroup::new(vec![
        Expr(field("imu.timestamp"), Op::Geq(Value::Integer(500))),
        Expr(field("imu.flag"), Op::Ex),
        Expr(field("imu.sensor_id"), Op::Eq(Value::text("imu_front"))),
        Expr(field("imu.position.x"), Op::Lt(Value::Integer(3))),
    ]);
    let e = expr_group_to_df_expr(group).unwrap();
    assert_eq!(
        show(&e),
        "(((col(timestamp) GtEq lit(500)) And (col(sensor_id) Eq lit(\"imu_front\"))) And (col(position).field(x) Lt lit(3)))"
    );
    assert!(expr_group_to_df_expr(ExprGroup::default()).is_none());
    let only_presence =
        ExprGroup::new(vec![Expr(field("a.b"), Op::Ex), Expr(field("a.c"), Op::Nex)]);
    assert!(TimeseriesGwResult::filter(only_presence).is_none());
    let one = ExprGroup::new(vec![Expr(field("a.b"), Op::Nex), Expr(field("a.c"), Op::Eq(Value::Boolean(false)))]);
    assert_eq!(show(&TimeseriesGwResult::filter(one).unwrap()), "(col(c) Eq lit(false))");
    assert_eq!(Operator::And, Operator::And);
}

#[test]
fn a_read_is_ordered_by_time() {
    for format in [Format::Default, Format::Ragged, Format::Image] {
        let plan = TimeseriesGw::read(format, Some(655));
        assert_eq!(plan.table, "data");
        assert_eq!(plan.listing.file_extension, ".parquet");
        assert_eq!(plan.batch_size, Some(655));
        assert_eq!(plan.select, "SELECT * FROM data ORDER BY timestamp");
        assert_eq!(get_listing_options(format).file_extension, ".parquet");
    }
    assert_eq!(TimeseriesGw::read(Format::Default, None).batch_size, None);
}

#[test]
fn rows_are_probed_under_a_limit_of_one() {
    assert_eq!(TimeseriesGwResult::probe_limit(), RowLimit { skip: 0, fetch: Some(1) });
    assert!(!TimeseriesGwResult::has_rows(0));
    assert!(TimeseriesGwResult::has_rows(1));
}

use mosaicod::query::builder::{
    ClausesCompiler, CompileClause, CompiledClause, OntologyFieldFmt,
};
use mosaicod::query::error::{Error, OpError};
use mosaicod::query::filter::{Expr, ExprGroup, IsSupportedOp, OntologyField, Op, Value};

/// Writes every test as `field ?` and binds the operands of the simple
/// comparisons.
struct Mapper {
    calls: usize,
}

impl CompileClause for Mapper {
    fn compile_clause<V>(&mut self, field: &str, op: Op<V>) -> Result<CompiledClause, Error>
    where
        V: Into<Value> + IsSupportedOp,
    {
        self.calls += 1;
        if !op.is_supported_op() {
            return Err(Error::OpError(OpError::UnsupportedOperation));
        }
        match op {
            Op::Eq(v) => Ok(CompiledClause::new(format!("{field} = ?"), vec![v.into()])),
            Op::Geq(v) => Ok(CompiledClause::new(format!("{field} >= ?"), vec![v.into()])),
            Op::Between(r) => Ok(CompiledClause::new(
                format!("{field} BETWEEN ? AND ?"),
                vec![r.min.into(), r.max.into()],
            )),
            _ => Ok(CompiledClause::empty()),
        }
    }
}

impl OntologyFieldFmt for Mapper {
    fn ontology_column_fmt(&self, val: &OntologyField) -> String {
        format!("\"{}\"", val.value())
    }
}

fn field(path: &str) -> OntologyField {
    OntologyField::try_new(path.into()).unwrap()
}

fn texts(values: &[Value]) -> Vec<String> {
    values.iter().map(|v| format!("{v:?}")).collect()
}

#[test]
fn compiled_clause_parts() {
    let c = CompiledClause::new("a = ?".into(), vec![Value::Integer(1)]);
    assert!(!c.is_empty());
    let (clause, values) = c.into_parts();
    assert_eq!(clause, "a = ?");
    assert_eq!(texts(&values), texts(&[Value::Integer(1)]));
    let e = CompiledClause::empty();
    assert!(e.is_empty());
    assert_eq!(e.clause, "()");
    assert!(e.values.is_empty());
    assert!(CompiledClause::new("()".into(), vec![Value::Integer(1)]).is_empty());
}

#[test]
fn clauses_and_values_are_gathered_in_order() {
    let mut mapper = Mapper { calls: 0 };
    let result = ClausesCompiler::new()
        .expr("name", Op::Eq("x".to_string()), &mut mapper)
        .expr("n", Op::Between(mosaicod::query::filter::Range::try_new(1i64, 9i64).unwrap()), &mut mapper)
        .expr("flag", Op::<bool>::Ex, &mut mapper)
        .expr("t", Op::Geq(Value::Integer(5)), &mut mapper)
        .compile()
        .unwrap();
    assert_eq!(mapper.calls, 4);
    assert_eq!(result.clauses, ["name = ?", "n BETWEEN ? AND ?", "()", "t >= ?"]);
    assert_eq!(
        texts(&result.values),
        texts(&[Value::text("x"), Value::Integer(1), Value::Integer(9), Value::Integer(5)])
    );
    assert!(!result.is_unfiltered());
}

#[test]
fn nothing_compiled_filters_nothing() {
    let result = ClausesCompiler::default().compile().unwrap();
    assert!(result.is_unfiltered());
    assert!(result.clauses.is_empty() && result.values.is_empty());
    let mut mapper = Mapper { calls: 0 };
    let result = ClausesCompiler::new().filter(ExprGroup::<Value>::default(), &mut mapper).compile().unwrap();
    assert!(result.is_unfiltered());
    assert_eq!(mapper.calls, 0);
}

#[test]
fn the_first_error_stands_and_stops_the_compiler() {
    let mut mapper = Mapper { calls: 0 };
    let compiler = ClausesCompiler::new()
        .expr("a", Op::Eq(Value::Integer(1)), &mut mapper)
        .expr("b", Op::Match(Value::Integer(1)), &mut mapper)
        .expr("c", Op::Eq(Value::Integer(2)), &mut mapper);
    assert_eq!(mapper.calls, 2);
    let compiler = compiler.absorb(Ok(CompiledClause::new("late".into(), vec![])));
    let compiler = compiler.absorb(Err(Error::BadField { field: "x".into() }));
    let err = compiler.compile().unwrap_err();
    assert!(matches!(err, Error::OpError(OpError::UnsupportedOperation)));
}

#[test]
fn a_group_is_compiled_with_formatted_fields() {
    let mut mapper = Mapper { calls: 0 };
    let group = ExprGroup::new(vec![
        Expr(field("imu.acceleration.x"), Op::Geq(Value::Integer(8))),
        Expr(field("imu.id"), Op::Eq(Value::text("front"))),
    ]);
    let result = ClausesCompiler::new().filter(group, &mut mapper).compile().unwrap();
    assert_eq!(result.clauses, ["\"imu.acceleration.x\" >= ?", "\"imu.id\" = ?"]);
    assert_eq!(texts(&result.values), texts(&[Value::Integer(8), Value::text("front")]));
    let mut mapper = Mapper { calls: 0 };
    let group = ExprGroup::new(vec![
        Expr(field("a.b"), Op::Lt(Value::text("no order on text"))),
        Expr(field("a.c"), Op::Eq(Value::Integer(1))),
    ]);
    let err = ClausesCompiler::new().filter(group, &mut mapper).compile().unwrap_err();
    assert!(matches!(err, Error::OpError(OpError::UnsupportedOperation)));
    assert_eq!(mapper.calls, 1);
    let failed = ClausesCompiler::new().absorb(Err(Error::BadField { field: "f".into() }));
    let group = ExprGroup::new(vec![Expr(field("a.c"), Op::Eq(Value::Integer(1)))]);
    let err = failed.filter(group, &mut mapper).compile().unwrap_err();
    assert!(matches!(err, Error::BadField { field } if field == "f"));
    assert_eq!(mapper.calls, 1);
}

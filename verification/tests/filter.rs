use mosaicod::query::error::OpError;
use mosaicod::query::filter::{
    Expr, ExprGroup, Filter, IsSupportedOp, OntologyField, OntologyFilter, Op, Range,
    SequenceFilter, TopicFilter, Value,
};
use mosaicod::types::float::Float;
use mosaicod::types::timestamp::Timestamp;

fn float(v: f64) -> Float {
    Float::from_bits(v.to_bits())
}

fn field(path: &str) -> OntologyField {
    OntologyField::try_new(path.into()).unwrap()
}

#[test]
fn ontology_field() {
    let oc = OntologyField::try_new("image.info.height".into()).expect("");

    assert_eq!(oc.field(), "info.height");
    assert_eq!(oc.ontology_tag(), "image");
    assert_eq!(oc.value(), "image.info.height");
}

#[test]
fn expr_grp_split() {
    let grp = ExprGroup {
        group: vec![
            (
                OntologyField::try_new("image.width".into()).unwrap(),
                Op::Eq(Value::Integer(1200)),
            )
                .into(),
            (
                OntologyField::try_new("image.height".into()).unwrap(),
                Op::Eq(Value::Integer(800)),
            )
                .into(),
            (
                OntologyField::try_new("imu.acceleration.x".into()).unwrap(),
                Op::Geq(Value::Float(float(8.0))),
            )
                .into(),
            (
                OntologyField::try_new("imu.angular_velocity.x".into()).unwrap(),
                Op::Leq(Value::Float(float(3.0))),
            )
                .into(),
        ],
    };

    let splits = grp.split_by_ontology_tag();

    for split in splits {
        assert_eq!(split.group.len(), 2);

        let ontology_tag = split.group[0].ontology_field().ontology_tag();
        assert!(ontology_tag == "image" || ontology_tag == "imu");
    }
}

#[test]
fn ontology_field_without_a_dot_is_malformed() {
    for path in ["image", "", "tag/field", "a,b"] {
        let err = OntologyField::try_new(path.into()).unwrap_err();
        assert!(matches!(&err, mosaicod::query::error::Error::BadField { field } if field == path));
        assert_eq!(err.to_string(), format!("bad field `{}`", path));
    }
}

#[test]
fn ontology_field_edge_paths() {
    let f = field(".");
    assert_eq!(f.ontology_tag(), "");
    assert_eq!(f.field(), "");
    assert_eq!(f.value(), ".");
    let f = field(".x");
    assert_eq!(f.ontology_tag(), "");
    assert_eq!(f.field(), "x");
    let f = field("tag.");
    assert_eq!(f.ontology_tag(), "tag");
    assert_eq!(f.field(), "");
    let f = field("a..b");
    assert_eq!(f.ontology_tag(), "a");
    assert_eq!(f.field(), ".b");
    let f = field("caméra.largeur.px");
    assert_eq!(f.ontology_tag(), "caméra");
    assert_eq!(f.field(), "largeur.px");
}

#[test]
fn ontology_fields_are_equal_by_path() {
    assert!(field("a.b") == field("a.b"));
    assert!(field("a.b") != field("a.c"));
    assert!(field("a.b").clone() == field("a.b"));
}

#[test]
fn between_needs_an_ordered_pair() {
    assert!(Range::try_new(1i64, 2i64).is_ok());
    assert!(Range::try_new(2i64, 2i64).is_ok());
    assert!(matches!(Range::try_new(3i64, 2i64), Err(OpError::EmptyRange)));
    let r = Range::try_new(float(-1.5), float(2.0)).unwrap();
    assert_eq!(r.min.to_bits(), (-1.5f64).to_bits());
    assert_eq!(r.max.to_bits(), 2.0f64.to_bits());
    assert!(matches!(Range::try_new(float(2.5), float(2.0)), Err(OpError::EmptyRange)));
    assert!(matches!(Range::try_new(float(f64::NAN), float(2.0)), Err(OpError::EmptyRange)));
    assert!(matches!(Range::try_new(float(1.0), float(f64::NAN)), Err(OpError::EmptyRange)));
    assert!(Range::try_new(float(-0.0), float(0.0)).is_ok());
    assert!(Range::try_new(float(0.0), float(-0.0)).is_ok());
    assert!(Range::try_new(Value::Integer(1), Value::Integer(5)).is_ok());
    assert!(Range::try_new(Value::Integer(6), Value::Integer(5)).is_err());
    assert!(Range::try_new(Value::text("a"), Value::text("ab")).is_ok());
    assert!(Range::try_new(Value::text("b"), Value::text("ab")).is_err());
}

#[test]
fn op_error_messages() {
    assert_eq!(OpError::WrongType.to_string(), "wrong type");
    assert_eq!(OpError::UnsupportedOperation.to_string(), "unsupported operation");
    assert_eq!(OpError::EmptyRange.to_string(), "empty range");
    let e: mosaicod::query::error::Error = OpError::EmptyRange.into();
    assert_eq!(e.to_string(), "empty range");
    let e = mosaicod::query::error::Error::BadField { field: "x".into() };
    assert_eq!(e.to_string(), "bad field `x`");
}

#[test]
fn value_support_table() {
    let int = Value::Integer(1);
    let flt = Value::Float(float(1.0));
    let txt = Value::text("a");
    let boo = Value::Boolean(true);
    // eq, ordering, in, match
    let table = [
        (&int, [true, true, true, false]),
        (&flt, [true, true, false, false]),
        (&txt, [true, false, true, true]),
        (&boo, [true, false, true, false]),
    ];
    for (v, row) in table {
        assert_eq!(v.support_eq(), row[0]);
        assert_eq!(v.support_ordering(), row[1]);
        assert_eq!(v.support_in(), row[2]);
        assert_eq!(v.support_match(), row[3]);
    }
}

#[test]
fn typed_operand_support() {
    assert!(true.support_eq() && !true.support_ordering() && !true.support_in());
    assert!(1i64.support_eq() && 1i64.support_ordering() && 1i64.support_in());
    assert!(!1i64.support_match());
    let t = Timestamp::from(5);
    assert!(t.support_eq() && t.support_ordering() && !t.support_in() && !t.support_match());
    let s = String::from("x");
    assert!(s.support_eq() && !s.support_ordering() && s.support_in() && s.support_match());
}

#[test]
fn op_support_follows_the_operand() {
    assert!(Op::Eq(Value::text("a")).is_supported_op());
    assert!(Op::Neq(Value::Boolean(true)).is_supported_op());
    assert!(!Op::Leq(Value::text("a")).is_supported_op());
    assert!(!Op::Gt(Value::Boolean(true)).is_supported_op());
    assert!(Op::Geq(Value::Float(float(1.0))).is_supported_op());
    assert!(Op::Lt(Value::Integer(1)).is_supported_op());
    assert!(Op::<Value>::Ex.is_supported_op());
    assert!(Op::<Value>::Nex.is_supported_op());
    assert!(Op::Between(Range::try_new(Value::Integer(1), Value::Integer(2)).unwrap()).is_supported_op());
    assert!(!Op::Between(Range { min: Value::text("a"), max: Value::text("b") }).is_supported_op());
    assert!(Op::In(vec![Value::Integer(1), Value::Integer(2)]).is_supported_op());
    assert!(!Op::In(vec![Value::Float(float(1.0))]).is_supported_op());
    assert!(Op::In(Vec::<Value>::new()).is_supported_op());
    assert!(Op::Match(Value::text("a%")).is_supported_op());
    assert!(!Op::Match(Value::Integer(1)).is_supported_op());
}

#[test]
fn values_compare_within_and_across_kinds() {
    assert!(Value::Integer(1) < Value::Integer(2));
    assert!(Value::Integer(2) == Value::Integer(2));
    assert!(Value::Float(float(0.0)) == Value::Float(float(-0.0)));
    assert!(Value::Float(float(f64::NAN)) != Value::Float(float(f64::NAN)));
    assert!(Value::Float(float(f64::NAN)).partial_cmp(&Value::Float(float(1.0))).is_none());
    assert!(Value::text("abc") < Value::text("abd"));
    assert!(Value::text("ab") < Value::text("abc"));
    assert!(Value::text("é") > Value::text("z"));
    assert!(Value::Boolean(false) < Value::Boolean(true));
    assert!(Value::Integer(100) < Value::Float(float(1.0)));
    assert!(Value::Float(float(1.0)) < Value::text(""));
    assert!(Value::text("z") < Value::Boolean(false));
    assert!(Value::Integer(1) != Value::Boolean(true));
    assert!(Value::from(Timestamp::from(7)) == Value::Integer(7));
    assert!(Value::from(String::from("s")) == Value::text("s"));
    assert!(Value::from(3i64) == Value::Integer(3));
    assert!(Value::from(true) == Value::Boolean(true));
    assert!(Value::text("q").clone() == Value::text("q"));
}

#[test]
fn split_keeps_every_expression_once() {
    let paths = ["a.x", "b.y", "a.z", "c.", "b.y", "a.x", "c.w"];
    let grp = ExprGroup::new(
        paths.iter().enumerate().map(|(i, p)| Expr(field(p), Op::Eq(Value::Integer(i as i64)))).collect(),
    );
    let splits = grp.split_by_ontology_tag();
    assert_eq!(splits.len(), 3);
    let tags: Vec<String> =
        splits.iter().map(|g| g.group[0].ontology_field().ontology_tag().to_string()).collect();
    assert_eq!(tags, ["a", "b", "c"]);
    let mut seen: Vec<i64> = Vec::new();
    for g in &splits {
        let tag = g.group[0].ontology_field().ontology_tag();
        for e in &g.group {
            assert_eq!(e.ontology_field().ontology_tag(), tag);
            match e.op() {
                Op::Eq(Value::Integer(i)) => seen.push(*i),
                _ => unreachable!(),
            }
        }
    }
    assert_eq!(seen, [0, 2, 5, 1, 4, 3, 6]);
    assert!(ExprGroup::<Value>::default().split_by_ontology_tag().is_empty());
}

#[test]
fn expr_parts() {
    let e: Expr<Value> = (field("imu.x"), Op::Ex).into();
    assert_eq!(e.ontology_field().value(), "imu.x");
    assert!(matches!(e.op(), Op::Ex));
    let (f, op) = e.into_parts();
    assert_eq!(f.value(), "imu.x");
    assert!(matches!(op, Op::Ex));
}

#[test]
fn ontology_filter_keeps_one_op_per_field() {
    let f = OntologyFilter::new(vec![
        Expr(field("a.x"), Op::Eq(Value::Integer(1))),
        Expr(field("b.y"), Op::Ex),
        Expr(field("a.x"), Op::Eq(Value::Integer(2))),
    ]);
    assert!(matches!(f.get_op("a.x"), Some(Op::Eq(Value::Integer(2)))));
    assert!(matches!(f.get_op("b.y"), Some(Op::Ex)));
    assert!(f.get_op("a").is_none());
    let g = f.into_expr_group();
    assert_eq!(g.group.len(), 2);
    assert_eq!(g.group[0].ontology_field().value(), "a.x");
    assert_eq!(g.group[1].ontology_field().value(), "b.y");
    assert!(OntologyFilter::empty().get_op("a.x").is_none());
    assert!(OntologyFilter::empty().into_expr_group().group.is_empty());
    let h = OntologyFilter::empty().with_op(field("k.v"), Op::Nex).with_op(field("k.v"), Op::Ex);
    assert!(matches!(h.get_op("k.v"), Some(Op::Ex)));
}

#[test]
fn filters_are_empty_when_no_domain_is_set() {
    assert!(Filter::default().is_empty());
    let f = Filter { sequence: None, topic: Some(TopicFilter::default()), ontology: None };
    assert!(!f.is_empty());
    let (s, t, o) = f.into_parts();
    assert!(s.is_none() && o.is_none());
    assert!(t.unwrap().is_empty());
    let t = TopicFilter { ontology_tag: Some(Op::Eq("imu".to_string())), ..TopicFilter::default() };
    assert!(!t.is_empty());
    let s = SequenceFilter { name: None, creation: None, user_metadata: None };
    assert!(s.is_empty());
    let s = SequenceFilter { name: None, creation: Some(Op::Geq(Timestamp::from(1))), user_metadata: None };
    assert!(!s.is_empty());
}

#[test]
fn a_group_hands_out_its_expressions_in_order() {
    let paths = ["a.x", "b.y", "a.z"];
    let group = ExprGroup::new(paths.iter().map(|p| Expr(field(p), Op::<Value>::Ex)).collect());
    let seen: Vec<String> = group.into_iter().map(|e| e.ontology_field().value().to_string()).collect();
    assert_eq!(seen, paths);
    assert_eq!(ExprGroup::<Value>::default().into_iter().count(), 0);
}

use mosaicod::params::{Configurables, ARROW_SCHEMA_COLUMN_NAME_TIMESTAMP, PARQUET};
use mosaicod::repo::facades::facade_error::FacadeError;
use mosaicod::repo::sql_models::records::TopicStats;
use mosaicod::server::endpoints::actions::query::QueryActionHandler;
use mosaicod::server::endpoints::actions::sequence::SequenceActionHandler;
use mosaicod::server::endpoints::actions::topic::TopicActionHandler;
use mosaicod::server::endpoints::actions::{
    check_key, ensure_unlocked, key_matches, read_key, ActionContext,
};
use mosaicod::server::endpoints::do_get::{compute_optimal_batch_size, ticket_topic};
use mosaicod::server::endpoints::list_flights::{is_root_query, list_flights};
use mosaicod::server::errors::ServerError;
use mosaicod::types::resource::{SequenceResourceLocator, TopicResourceLocator, Uuid};

const KEY: &str = "550e8400-e29b-41d4-a716-446655440000";
const BITS: u128 = 0x550e8400_e29b_41d4_a716_446655440000;

fn stats(size: i64, rows: i64) -> TopicStats {
    TopicStats { total_size_bytes: size, total_row_count: rows }
}

#[test]
fn batch_size_inference() {
    assert_eq!(compute_optimal_batch_size(&stats(1_000_000, 10_000), 64 * 1024), Some(655));
}

#[test]
fn batch_size_defers_to_the_engine_without_statistics() {
    assert_eq!(compute_optimal_batch_size(&stats(0, 10_000), 65536), None);
    assert_eq!(compute_optimal_batch_size(&stats(1_000_000, 0), 65536), None);
    assert_eq!(compute_optimal_batch_size(&stats(0, 0), 65536), None);
    assert_eq!(compute_optimal_batch_size(&stats(-5, 10), 65536), None);
    assert_eq!(compute_optimal_batch_size(&stats(5, -10), 65536), None);
    assert_eq!(compute_optimal_batch_size(&TopicStats::default(), 65536), None);
}

#[test]
fn batch_size_is_clamped_positive() {
    assert_eq!(compute_optimal_batch_size(&stats(1_000_000, 1), 10), Some(1));
    assert_eq!(compute_optimal_batch_size(&stats(10, 10), 0), Some(1));
    assert_eq!(compute_optimal_batch_size(&stats(3, 10), 2), Some(6));
    assert_eq!(compute_optimal_batch_size(&stats(7, 10), 5), Some(7));
    assert_eq!(compute_optimal_batch_size(&stats(1, i64::MAX), usize::MAX), Some(usize::MAX));
    assert_eq!(
        compute_optimal_batch_size(&stats(i64::MAX, i64::MAX), usize::MAX),
        Some(usize::MAX)
    );
    assert_eq!(compute_optimal_batch_size(&stats(3, 2), 3), Some(2));
}

#[test]
fn tickets_are_utf8_text() {
    assert_eq!(ticket_topic(b"seq/topic".to_vec()).unwrap(), "seq/topic");
    assert_eq!(ticket_topic("sé/ü".as_bytes().to_vec()).unwrap(), "sé/ü");
    assert_eq!(ticket_topic(Vec::new()).unwrap(), "");
    let err = ticket_topic(vec![b'a', b'b', 0xFF]).unwrap_err();
    assert_eq!(err.to_string(), format!("bad ticket: {}", String::from_utf8(vec![b'a', b'b', 0xFF]).unwrap_err()));
    for bad in [vec![0xFFu8], vec![b'a', 0xC3], vec![0xED, 0xA0, 0x80], vec![0xC0, 0x80]] {
        let reason = String::from_utf8(bad.clone()).unwrap_err().to_string();
        let err = ticket_topic(bad).unwrap_err();
        assert!(matches!(&err, ServerError::BadTicket(r) if *r == reason));
        assert_eq!(err.to_string(), format!("bad ticket: {reason}"));
    }
}

#[test]
fn only_the_root_is_listed() {
    assert!(is_root_query(b""));
    assert!(is_root_query(b"/"));
    for other in [&b"//"[..], b"a", b"/a", b" ", b"\\", &[0xFF][..], b"/ "] {
        assert!(!is_root_query(other));
        assert!(matches!(list_flights(other), Err(ServerError::UnsupportedDescriptor)));
    }
    assert!(list_flights(b"").is_ok());
    assert!(list_flights(b"/").is_ok());
}

#[test]
fn keys_are_identifiers() {
    assert_eq!(read_key(KEY).unwrap().as_u128(), BITS);
    assert_eq!(read_key("550E8400E29B41D4A716446655440000").unwrap().as_u128(), BITS);
    assert_eq!(read_key("{550e8400-e29b-41d4-a716-446655440000}").unwrap().as_u128(), BITS);
    assert_eq!(
        read_key("urn:uuid:550e8400-e29b-41d4-a716-446655440000").unwrap().as_u128(),
        BITS
    );
    assert_eq!(Uuid::parse_str(KEY).unwrap(), Uuid::from_u128(BITS));
    assert_eq!(
        Uuid::parse_str("00000000-0000-0000-0000-000000000001").unwrap().as_u128(),
        1
    );
    for bad in ["", "not-a-key", "550e8400-e29b-41d4-a716-44665544000", "550e8400-e29b-41d4-a716-44665544000g"] {
        assert!(matches!(read_key(bad), Err(ServerError::InvalidKey(_))));
        assert!(Uuid::parse_str(bad).is_err());
    }
    let err = read_key("zz").unwrap_err();
    assert!(err.to_string().starts_with("invalid key: "));
    assert!(err.to_string().len() > "invalid key: ".len());
}

#[test]
fn keys_are_checked_against_the_resource() {
    let id = Uuid::from_u128(BITS);
    assert!(check_key(id, KEY).is_ok());
    assert!(matches!(check_key(Uuid::from_u128(BITS + 1), KEY), Err(ServerError::BadKey)));
    assert!(matches!(check_key(id, "nope"), Err(ServerError::InvalidKey(_))));
    assert!(key_matches(id, id).is_ok());
    assert!(matches!(key_matches(id, Uuid::from_u128(0)), Err(ServerError::BadKey)));
    assert!(ensure_unlocked(false).is_ok());
    assert!(matches!(ensure_unlocked(true), Err(ServerError::SequenceLocked)));
}

#[test]
fn fresh_identifiers_are_random_version_four() {
    let a = Uuid::new_v4();
    let b = Uuid::new_v4();
    assert_ne!(a, b);
    for id in [a, b] {
        assert_eq!((id.as_u128() >> 76) & 0xF, 4);
        assert_eq!((id.as_u128() >> 62) & 0x3, 2);
    }
}

#[test]
fn sequence_actions() {
    assert!(SequenceActionHandler::create(false, "s").is_ok());
    let err = SequenceActionHandler::create(true, "/test_sequence").unwrap_err();
    assert!(matches!(&err, ServerError::SequenceAlreadyExists(n) if n == "/test_sequence"));
    assert_eq!(err.to_string(), "sequence `/test_sequence` already exists");
    assert!(SequenceActionHandler::delete(false).is_ok());
    assert!(matches!(SequenceActionHandler::delete(true), Err(ServerError::SequenceLocked)));
    let id = Uuid::from_u128(BITS);
    assert!(SequenceActionHandler::abort(false, id, KEY).is_ok());
    assert!(matches!(SequenceActionHandler::abort(true, id, KEY), Err(ServerError::SequenceLocked)));
    assert!(matches!(SequenceActionHandler::abort(true, id, "bad"), Err(ServerError::SequenceLocked)));
    assert!(matches!(SequenceActionHandler::abort(false, Uuid::from_u128(2), KEY), Err(ServerError::BadKey)));
    assert!(matches!(SequenceActionHandler::abort(false, id, "bad"), Err(ServerError::InvalidKey(_))));
    assert!(SequenceActionHandler::finalize(id, KEY).is_ok());
    assert!(matches!(SequenceActionHandler::finalize(Uuid::from_u128(2), KEY), Err(ServerError::BadKey)));
    assert!(matches!(SequenceActionHandler::finalize(id, ""), Err(ServerError::InvalidKey(_))));
}

#[test]
fn topic_actions() {
    assert_eq!(TopicActionHandler::create(false, "s/t", KEY).unwrap().as_u128(), BITS);
    let err = TopicActionHandler::create(true, "s/t", KEY).unwrap_err();
    assert!(matches!(&err, ServerError::TopicAlreadyExists(n) if n == "s/t"));
    assert_eq!(err.to_string(), "topic `s/t` already exists");
    assert!(matches!(TopicActionHandler::create(true, "s/t", "bad"), Err(ServerError::TopicAlreadyExists(_))));
    assert!(matches!(TopicActionHandler::create(false, "s/t", "bad"), Err(ServerError::InvalidKey(_))));
    assert!(TopicActionHandler::delete(false).is_ok());
    assert!(matches!(TopicActionHandler::delete(true), Err(ServerError::SequenceLocked)));
}

fn authorize(topic: &str, sequence: &str, locked: bool) -> Result<(), FacadeError> {
    TopicActionHandler::authorize(
        &TopicResourceLocator::from(topic.to_string()),
        &SequenceResourceLocator::from(sequence.to_string()),
        locked,
    )
}

#[test]
fn unauthorized_topic() {
    assert!(matches!(authorize("/B/child", "/A", false), Err(FacadeError::Unauthorized)));
}

#[test]
fn topics_lie_under_their_sequence() {
    assert!(authorize("test_sequence/test_topic", "test_sequence", false).is_ok());
    assert!(matches!(authorize("test_topic", "test_sequence", false), Err(FacadeError::Unauthorized)));
    assert!(authorize("/A/child", "/A", false).is_ok());
    assert!(authorize("/A/", "/A", false).is_ok());
    assert!(authorize("/A/b/c", "/A", false).is_ok());
    for (topic, sequence) in [("/A", "/A"), ("/Ab/c", "/A"), ("/A", "/A/b"), ("", "/A"), ("A/child", "/A"), ("/é/x", "/e")] {
        assert!(matches!(authorize(topic, sequence, false), Err(FacadeError::Unauthorized)));
    }
    assert!(authorize("/é/x", "/é", false).is_ok());
    assert!(authorize("/x", "", false).is_ok());
    assert!(matches!(authorize("/A/child", "/A", true), Err(FacadeError::SequenceLocked)));
    assert!(matches!(authorize("/B/child", "/A", true), Err(FacadeError::Unauthorized)));
    let t = TopicResourceLocator::from("/A/child".to_string());
    assert_eq!(t.name(), "/A/child");
    assert!(t.is_child_of(&SequenceResourceLocator::from("/A".to_string())));
    assert_eq!(SequenceResourceLocator::from("/A".to_string()).name(), "/A");
}

#[test]
fn server_error_messages() {
    let cases: Vec<(ServerError, &str)> = vec![
        (ServerError::SequenceLocked, "sequence locked"),
        (ServerError::BadKey, "bad key"),
        (ServerError::InvalidKey("r".into()), "invalid key: r"),
        (ServerError::BadTicket("r".into()), "bad ticket: r"),
        (ServerError::UnsupportedDescriptor, "unsupported descriptor"),
        (ServerError::from(FacadeError::Unauthorized), "unauthorized"),
    ];
    for (e, message) in cases {
        assert_eq!(e.to_string(), message);
    }
}

#[test]
fn the_query_action_lays_out_the_query() {
    let plan = QueryActionHandler::execute(mosaicod::query::filter::Filter::default());
    assert!(plan.no_topic_filter && plan.groups.is_none());
}

#[test]
fn action_context_holds_the_three_handles() {
    let ctx = ActionContext::new("store", 7u8, vec![1, 2]);
    assert_eq!((ctx.store, ctx.repo, ctx.ts_engine), ("store", 7u8, vec![1, 2]));
}

#[test]
fn settings_are_within_their_ranges() {
    let c = Configurables::try_new(4, 65536).unwrap();
    assert_eq!((c.max_concurrent_chunk_queries, c.target_message_size_in_bytes), (4, 65536));
    assert!(Configurables::try_new(1, 1).is_some());
    assert!(Configurables::try_new(0, 65536).is_none());
    assert!(Configurables::try_new(4, 0).is_none());
    assert_eq!(PARQUET, "parquet");
    assert_eq!(ARROW_SCHEMA_COLUMN_NAME_TIMESTAMP, "timestamp");
}

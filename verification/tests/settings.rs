use eventsourced::counter::{Cmd, Counter, Error, Evt};
use eventsourced::event_sourced::EventSourced;
use eventsourced::nats;
use eventsourced::postgres;
use eventsourced::seq_no::{SeqNo, ZeroSeqNoError};
use eventsourced::snapshot::Snapshot;

#[test]
fn nats_defaults() {
    let config = nats::Config::default();
    assert_eq!(config.server_addr(), "localhost:4222");
    assert_eq!(config.bucket(), "snapshots");
    assert!(!config.setup());
    assert_eq!(nats::bucket_default(), "snapshots");
}

#[test]
fn nats_builders_change_one_setting_each() {
    let config = nats::Config::default().with_server_addr("localhost:14222").with_setup(true);
    assert_eq!(config.server_addr(), "localhost:14222");
    assert_eq!(config.bucket(), "snapshots");
    assert!(config.setup());

    let config = config.with_bucket("other");
    assert_eq!(config.server_addr(), "localhost:14222");
    assert_eq!(config.bucket(), "other");
    assert!(config.setup());

    let config = config.with_setup(false);
    assert_eq!(config.bucket(), "other");
    assert!(!config.setup());
}

#[test]
fn nats_new_and_clone() {
    let config = nats::Config::new("a:1".to_string(), "b".to_string(), true);
    let copy = config.clone();
    assert_eq!(copy.server_addr(), "a:1");
    assert_eq!(copy.bucket(), "b");
    assert!(copy.setup());
}

#[test]
fn nats_bucket_is_set_up_on_demand_only() {
    assert_eq!(nats::Config::default().bucket_to_set_up(), None);
    assert_eq!(
        nats::Config::default().with_setup(true).bucket_to_set_up(),
        Some("snapshots".to_string())
    );
    assert_eq!(
        nats::Config::default().with_bucket("other").with_setup(true).bucket_to_set_up(),
        Some("snapshots".to_string())
    );
}

#[test]
fn postgres_defaults() {
    let config = postgres::Config::default();
    assert_eq!(
        config.cnn_config(),
        "host=localhost port=5432 user=postgres password= dbname=postgres sslmode=prefer"
    );
    assert_eq!(config.snapshots_table(), "snapshots");
    assert!(!config.setup());
    assert_eq!(postgres::snapshots_table_default(), "snapshots");
}

#[test]
fn postgres_builders_change_one_setting_each() {
    let config = postgres::Config::default()
        .with_host("db.example")
        .with_port(15432)
        .with_user("alice")
        .with_password("secret")
        .with_dbname("journal")
        .with_sslmode("require")
        .with_snapshots_table("states".to_string())
        .with_setup(true);
    assert_eq!(
        config.cnn_config(),
        "host=db.example port=15432 user=alice password=secret dbname=journal sslmode=require"
    );
    assert_eq!(config.snapshots_table(), "states");
    assert!(config.setup());

    let config = config.with_host("localhost");
    assert_eq!(
        config.cnn_config(),
        "host=localhost port=15432 user=alice password=secret dbname=journal sslmode=require"
    );
    assert_eq!(config.snapshots_table(), "states");
}

#[test]
fn postgres_port_is_written_in_decimal() {
    for (port, text) in [(0, "0"), (7, "7"), (10, "10"), (409, "409"), (65535, "65535")] {
        let config = postgres::Config::default().with_port(port);
        assert_eq!(
            config.cnn_config(),
            format!("host=localhost port={} user=postgres password= dbname=postgres sslmode=prefer", text)
        );
    }
}

#[test]
fn postgres_new_and_clone() {
    let config = postgres::Config::new(
        "h".to_string(),
        1,
        "u".to_string(),
        "p".to_string(),
        "d".to_string(),
        "s".to_string(),
        "t".to_string(),
        true,
    );
    let copy = config.clone();
    assert_eq!(copy.cnn_config(), "host=h port=1 user=u password=p dbname=d sslmode=s");
    assert_eq!(copy.snapshots_table(), "t");
    assert!(copy.setup());
}

#[test]
fn seq_no_is_never_zero() {
    assert_eq!(SeqNo::try_from(0), Err(ZeroSeqNoError));
    assert_eq!(SeqNo::try_from(1).map(|seq_no| seq_no.as_u64()), Ok(1));
    assert_eq!(SeqNo::try_from(42).map(|seq_no| seq_no.as_u64()), Ok(42));
    assert_eq!(SeqNo::try_from(u64::MAX).map(|seq_no| seq_no.as_u64()), Ok(u64::MAX));
    let converted: Result<SeqNo, ZeroSeqNoError> = 42.try_into();
    assert_eq!(converted, SeqNo::try_from(42));
}

#[test]
fn snapshot_holds_what_it_was_made_of() {
    let seq_no = SeqNo::try_from(42).unwrap();
    let snapshot = Snapshot::new(seq_no, 666, Some("token"));
    assert_eq!(snapshot.seq_no, seq_no);
    assert_eq!(snapshot.state, 666);
    assert_eq!(snapshot.metadata, Some("token"));
}

#[test]
fn seq_no_column_keeps_the_bits() {
    let column = |value: u64| postgres::seq_no_to_column(SeqNo::try_from(value).unwrap());
    assert_eq!(column(1), 1);
    assert_eq!(column(42), 42);
    assert_eq!(column(i64::MAX as u64), i64::MAX);
    assert_eq!(column(i64::MAX as u64 + 1), i64::MIN);
    assert_eq!(column(u64::MAX), -1);

    let seq_no = |column: i64| postgres::seq_no_from_column(column).map(|seq_no| seq_no.as_u64());
    assert_eq!(seq_no(0), Err(ZeroSeqNoError));
    assert_eq!(seq_no(42), Ok(42));
    assert_eq!(seq_no(-1), Ok(u64::MAX));
    assert_eq!(seq_no(i64::MIN), Ok(i64::MAX as u64 + 1));
    for value in [1, 2, 1 << 40, u64::MAX - 1] {
        assert_eq!(seq_no(column(value)), Ok(value));
    }
}

#[test]
fn counter_accepts_what_stays_in_range() {
    let counter = Counter { value: 5, snapshot_after: None };
    assert_eq!(counter.handle_cmd(Cmd::Inc(2)), Ok(vec![Evt::Increased { old_value: 5, inc: 2 }]));
    assert_eq!(counter.handle_cmd(Cmd::Dec(5)), Ok(vec![Evt::Decreased { old_value: 5, dec: 5 }]));
    assert_eq!(counter.handle_cmd(Cmd::Dec(6)), Err(Error::Underflow { value: 5, dec: 6 }));
    assert_eq!(
        counter.handle_cmd(Cmd::Inc(u64::MAX - 4)),
        Err(Error::Overflow { value: 5, inc: u64::MAX - 4 })
    );
    assert_eq!(
        counter.handle_cmd(Cmd::Inc(u64::MAX - 5)),
        Ok(vec![Evt::Increased { old_value: 5, inc: u64::MAX - 5 }])
    );
    assert_eq!(Error::Underflow { value: 5, dec: 6 }.message(), "cannot go negative");
    assert_eq!(Error::Overflow { value: 5, inc: 6 }.message(), "cannot exceed the maximum");
}

#[test]
fn counter_applies_events_and_asks_for_snapshots_when_due() {
    let mut counter = Counter::default().with_snapshot_after(Some(2));
    assert_eq!(counter.handle_evt(1, &Evt::Increased { old_value: 0, inc: 3 }), None);
    assert_eq!(counter.value, 3);
    assert_eq!(counter.handle_evt(2, &Evt::Decreased { old_value: 3, dec: 1 }), Some(2));
    assert_eq!(counter.value, 2);
    assert_eq!(counter.handle_evt(3, &Evt::Decreased { old_value: 2, dec: 3 }), None);
    assert_eq!(counter.value, u64::MAX);
    assert_eq!(counter.handle_evt(4, &Evt::Increased { old_value: 0, inc: 2 }), Some(1));

    let mut never = Counter::default().with_snapshot_after(Some(0));
    assert_eq!(never.handle_evt(4, &Evt::Increased { old_value: 0, inc: 2 }), None);
    let mut unset = Counter::default();
    assert_eq!(unset.handle_evt(4, &Evt::Increased { old_value: 0, inc: 2 }), None);

    counter.set_state(666);
    assert_eq!(counter, Counter { value: 666, snapshot_after: Some(2) });
}

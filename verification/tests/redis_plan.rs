use runtime::cache::drop::{after_batch, drop_batches, drop_keys, DropStep, DROP_BATCH};
use runtime::cache::error::CacheError;
use runtime::cache::policy::DialTimeout;
use runtime::cache::redis::{
    connection_manager_config, delete_command, exists_command, get_command, index_selection, members_command,
    IndexSelection, derived_config, effective_address, exists_outcome, get_outcome,
    internal, parse_address, parse_u16, redis_database_index, set_add_command, set_command, set_remove_command,
    touch_command, touch_outcome, ttl_millis, write_outcome, Arg, ConnectionTimeout, RedisConfig, ScanState,
    WriteCondition, PERSIST_SCRIPT,
};
use runtime::time::Duration;

/// A readable rendering of a command's arguments.
fn words(args: &[Arg]) -> Vec<String> {
    args.iter()
        .map(|a| match a {
            Arg::Text(t) => t.clone(),
            Arg::Bytes(b) => format!("bytes:{}", String::from_utf8_lossy(b)),
            Arg::Int(n) => format!("int:{n}"),
        })
        .collect()
}

fn owned(keys: &[&str]) -> Vec<String> {
    keys.iter().map(|k| k.to_string()).collect()
}

fn internal_message<T: std::fmt::Debug>(r: Result<T, CacheError>) -> String {
    match r {
        Err(CacheError::Internal(m)) => m,
        other => panic!("expected an internal error, got {other:?}"),
    }
}

#[test]
fn test_redis_dial_timeout_resolves_all_explicit_policies() {
    assert_eq!(connection_manager_config(DialTimeout::Default).unwrap(), ConnectionTimeout::Native);
    assert_eq!(connection_manager_config(DialTimeout::Disabled).unwrap(), ConnectionTimeout::Disabled);
    assert_eq!(
        connection_manager_config(DialTimeout::After(Duration::from_secs(3))).unwrap(),
        ConnectionTimeout::After(Duration::from_secs(3))
    );
}

#[test]
fn parse_address_rejects_missing_port_empty_host_and_bad_ports() {
    assert_eq!(internal_message(parse_address("missing-port")), "redis: address must be host:port or [ipv6]:port");
    assert_eq!(internal_message(parse_address("[::1]6379")), "redis: address must be host:port or [ipv6]:port");
    assert_eq!(internal_message(parse_address(":6379")), "redis: address host cannot be empty");
    assert_eq!(internal_message(parse_address("host:0")), "redis: address port must be between 1 and 65535");
    assert_eq!(internal_message(parse_address("host:65536")), "redis: address port must be between 1 and 65535");
    assert_eq!(internal_message(parse_address("host:")), "redis: address port must be between 1 and 65535");
}

#[test]
fn parse_address_splits_at_the_last_colon_and_accepts_a_plus_sign() {
    assert_eq!(parse_address("a:b:7").unwrap(), ("a:b".to_owned(), 7));
    assert_eq!(parse_address("host:+80").unwrap(), ("host".to_owned(), 80));
    assert_eq!(parse_address("[fe80::1]:65535").unwrap(), ("fe80::1".to_owned(), 65535));
}

#[test]
fn parse_u16_matches_std() {
    for text in ["0", "1", "+1", "65535", "65536", "", "+", "-1", "1a", "00012", "99999999999"] {
        assert_eq!(parse_u16(text), text.parse::<u16>().ok(), "{text}");
    }
}

#[test]
fn effective_address_defaults_only_when_empty() {
    assert_eq!(effective_address(""), "localhost:6379");
    assert_eq!(effective_address("db:1"), "db:1");
}

#[test]
fn derived_config_changes_only_the_database() {
    let config = RedisConfig {
        address: "h:1".to_owned(),
        username: "u".to_owned(),
        password: "p".to_owned(),
        database: 0,
        dial_timeout: DialTimeout::Disabled,
    };
    let derived = derived_config(&config, 5);

    assert_eq!(derived.database, 5);
    assert_eq!(derived.address, "h:1");
    assert_eq!(derived.username, "u");
    assert_eq!(derived.password, "p");
    assert_eq!(derived.dial_timeout, DialTimeout::Disabled);
}

#[test]
fn database_index_beyond_signed_range_is_refused() {
    assert_eq!(redis_database_index(3).unwrap(), 3);
    assert_eq!(redis_database_index(i64::MAX as usize).unwrap(), i64::MAX);
    assert_eq!(
        internal_message(redis_database_index(i64::MAX as usize + 1)),
        "redis: database index 9223372036854775808 exceeds Redis range"
    );
}

#[test]
fn ttl_millis_rounds_up_fractions_and_refuses_overflow() {
    assert_eq!(ttl_millis(Duration::from_nanos(1_000_001)).unwrap(), 2);
    assert_eq!(ttl_millis(Duration::zero()).unwrap(), 0);
    assert_eq!(ttl_millis(Duration::from_secs(u64::MAX)).is_err(), true);
    assert_eq!(internal_message(ttl_millis(Duration::from_secs(u64::MAX))), "redis: TTL exceeds millisecond range");
}

#[test]
fn set_command_adds_lease_and_condition() {
    let plain = set_command("k", b"v", Duration::zero(), WriteCondition::Always).unwrap();
    assert_eq!(words(&plain), vec!["SET", "k", "bytes:v"]);

    let leased = set_command("k", b"v", Duration::from_secs(2), WriteCondition::IfAbsent).unwrap();
    assert_eq!(words(&leased), vec!["SET", "k", "bytes:v", "PX", "int:2000", "NX"]);

    let present = set_command("k", b"v", Duration::from_nanos(1), WriteCondition::IfPresent).unwrap();
    assert_eq!(words(&present), vec!["SET", "k", "bytes:v", "PX", "int:1", "XX"]);
}

#[test]
fn write_outcomes_follow_the_condition() {
    assert_eq!(write_outcome(WriteCondition::IfAbsent, None).unwrap(), false);
    assert_eq!(write_outcome(WriteCondition::IfPresent, None).unwrap(), false);
    assert_eq!(
        internal_message(write_outcome(WriteCondition::Always, None)),
        "redis: set reply: unexpected nil response from unconditional SET"
    );
    assert_eq!(write_outcome(WriteCondition::Always, Some(Ok(()))).unwrap(), true);
    assert!(matches!(
        write_outcome(WriteCondition::IfAbsent, Some(Err(CacheError::Overloaded))),
        Err(CacheError::Overloaded)
    ));
}

#[test]
fn get_and_exists_outcomes() {
    assert!(matches!(get_outcome(None), Err(CacheError::NotFound)));
    assert_eq!(get_outcome(Some(Ok(b"v".to_vec()))).unwrap(), b"v");
    assert!(exists_outcome(1));
    assert!(!exists_outcome(0));
}

#[test]
fn touch_uses_the_persist_script_for_a_zero_lease() {
    let persist = touch_command("k", Duration::zero()).unwrap();
    assert_eq!(words(&persist), vec!["EVAL", PERSIST_SCRIPT, "int:1", "k"]);

    let expire = touch_command("k", Duration::from_millis(1500)).unwrap();
    assert_eq!(words(&expire), vec!["PEXPIRE", "k", "int:1500"]);

    assert!(touch_outcome(Duration::zero(), 0).is_ok());
    assert!(matches!(touch_outcome(Duration::zero(), -1), Err(CacheError::NotFound)));
    assert!(touch_outcome(Duration::from_secs(1), 1).is_ok());
    assert!(matches!(touch_outcome(Duration::from_secs(1), 0), Err(CacheError::NotFound)));
}

#[test]
fn list_commands_skip_empty_lists() {
    assert!(delete_command(&[]).is_none());
    assert!(set_add_command("s", &[]).is_none());
    assert!(set_remove_command("s", &[]).is_none());

    assert_eq!(words(&delete_command(&["a", "b"]).unwrap()), vec!["DEL", "a", "b"]);
    assert_eq!(words(&set_add_command("s", &["one", "two"]).unwrap()), vec!["SADD", "s", "one", "two"]);
    assert_eq!(words(&set_remove_command("s", &["one"]).unwrap()), vec!["SREM", "s", "one"]);
}

#[test]
fn internal_errors_carry_operation_context() {
    match internal("get", "scripted failure") {
        CacheError::Internal(m) => assert_eq!(m, "redis: get: scripted failure"),
        other => panic!("unexpected {other:?}"),
    }
}

#[test]
fn scan_walks_the_cursor_and_keeps_each_key_once() {
    let mut scan = ScanState::new();
    assert_eq!(
        words(&scan.command("app:orders:cache:*")),
        vec!["SCAN", "int:0", "MATCH", "app:orders:cache:*", "COUNT", "int:256"]
    );

    assert!(!scan.step(7, &owned(&["one", "two"])));
    assert_eq!(words(&scan.command("p"))[1], "int:7");
    assert!(scan.step(0, &owned(&["two", "three", "one"])));
    assert_eq!(scan.into_keys(), owned(&["one", "two", "three"]));
}

#[test]
fn drop_keys_rejects_keys_outside_the_head() {
    let scanned = owned(&["app:orders:cache:a", "another:cache:key"]);

    assert_eq!(
        internal_message(drop_keys("app:orders:cache:", &scanned)),
        "scanner returned a key outside the requested prefix"
    );
}

#[test]
fn drop_keys_counts_duplicate_cursor_keys_once() {
    let scanned = owned(&["app:k", "app:j", "app:k"]);

    assert_eq!(drop_keys("app:", &scanned).unwrap(), owned(&["app:k", "app:j"]));
}

#[test]
fn drop_batches_are_bounded_and_in_order() {
    let keys: Vec<String> = (0..257).map(|i| format!("app:orders:cache:key-{i}")).collect();
    let batches = drop_batches(&keys);

    assert_eq!(batches.len(), 2);
    assert_eq!(batches[0].len(), DROP_BATCH);
    assert_eq!(batches[1], vec!["app:orders:cache:key-256".to_string()]);
    assert_eq!(batches.concat(), keys);
    assert!(drop_batches(&[]).is_empty());
}

#[test]
fn after_batch_reports_partial_deletes() {
    assert!(matches!(after_batch(0, 256, Ok(())), DropStep::Continue(256)));
    assert!(matches!(
        after_batch(0, 256, Err(CacheError::Internal("delete failed".to_owned()))),
        DropStep::Fail(CacheError::Internal(_))
    ));
    match after_batch(256, 1, Err(CacheError::Internal("delete failed".to_owned()))) {
        DropStep::Fail(CacheError::PartialDelete { deleted, source }) => {
            assert_eq!(deleted, 256);
            assert!(matches!(*source, CacheError::Internal(ref m) if m == "delete failed"));
        }
        other => panic!("expected partial delete failure, got {other:?}"),
    }
}

#[test]
fn single_key_commands() {
    assert_eq!(words(&get_command("key")), vec!["GET", "key"]);
    assert_eq!(words(&exists_command("key")), vec!["EXISTS", "key"]);
    assert_eq!(words(&members_command("set")), vec!["SMEMBERS", "set"]);
}

#[test]
fn ttl_beyond_the_signed_redis_range_is_refused() {
    let max = i64::MAX as u64;
    assert_eq!(ttl_millis(Duration::from_millis(max)).unwrap(), max);
    assert_eq!(internal_message(ttl_millis(Duration::from_millis(max + 1))), "redis: TTL exceeds millisecond range");
    assert!(set_command("k", b"v", Duration::from_millis(max + 1), WriteCondition::Always).is_err());
    assert!(touch_command("k", Duration::from_millis(max + 1)).is_err());
}

#[test]
fn index_selection_reuses_the_current_index_and_derives_others() {
    let config = RedisConfig { database: 4, ..RedisConfig::default() };

    assert!(matches!(index_selection(&config, 4), IndexSelection::Reuse));
    match index_selection(&config, 7) {
        IndexSelection::Derive(c) => {
            assert_eq!(c.database, 7);
            assert_eq!(c.dial_timeout, config.dial_timeout);
        }
        IndexSelection::Reuse => panic!("expected a derived client"),
    }
}

use eth_indexer::db::Db;
use eth_indexer::error::TickError;
use eth_indexer::indexer::{Action, Event, Indexer, Phase};
use eth_indexer::json::Json;

fn text(s: &str) -> Json {
    Json::Text(s.to_string())
}

fn object(members: Vec<(&str, Json)>) -> Json {
    Json::Object(members.into_iter().map(|(k, v)| (k.to_string(), v)).collect())
}

fn block(timestamp: &str, transactions: Vec<Json>) -> Json {
    object(vec![
        ("jsonrpc", text("2.0")),
        ("id", Json::Integer(1)),
        ("result", object(vec![("timestamp", text(timestamp)), ("transactions", Json::Array(transactions))])),
    ])
}

fn transfer_tx() -> Json {
    object(vec![
        ("hash", text("0xaa")),
        ("blockNumber", text("0x10")),
        ("from", text("0x11")),
        ("to", text("0x22")),
        ("value", text("0x16345785d8a0000")),
        ("gas", text("0x5208")),
        ("gasPrice", text("0x3b9aca00")),
    ])
}

fn tx(hash: &str, from: Json, to: Json, value: &str) -> Json {
    object(vec![("hash", text(hash)), ("blockNumber", text("0x1")), ("from", from), ("to", to), ("value", text(value))])
}

fn code_answer(code: &str) -> Json {
    object(vec![("jsonrpc", text("2.0")), ("id", Json::Integer(1)), ("result", text(code))])
}

/// What one tick did: the addresses probed in order, and how it ended.
struct Tick {
    probed: Vec<String>,
    inserts: usize,
    failure: Option<TickError>,
    millis: u64,
}

/// Drives one tick against a block, the code at each address and a table.
fn tick<'a>(indexer: Indexer<'a>, block: Json, codes: &[(&str, &str)], db: &mut Db) -> (Indexer<'a>, Tick) {
    let mut block = Some(block);
    let mut log = Tick { probed: vec![], inserts: 0, failure: None, millis: 0 };
    let (mut indexer, mut action) = indexer.run(Event::Wake);
    loop {
        let event = match action {
            Action::Call(body) => {
                assert_eq!(body.get("jsonrpc").unwrap().as_str(), Some("2.0"));
                assert_eq!(body.get("id").unwrap().as_i64(), Some(1));
                let method = body.get("method").unwrap().as_str().unwrap().to_string();
                let params = body.get("params").unwrap().as_array().unwrap();
                if method == "eth_getBlockByNumber" {
                    assert_eq!(params[0].as_str(), Some("latest"));
                    assert!(matches!(params[1], Json::Bool(true)));
                    Event::Reply { status: 200, body: block.take() }
                } else {
                    assert_eq!(method, "eth_getCode");
                    assert_eq!(params[1].as_str(), Some("latest"));
                    let address = params[0].as_str().unwrap().to_string();
                    log.probed.push(address.clone());
                    match codes.iter().find(|(a, _)| *a == address) {
                        Some((_, code)) => Event::Reply { status: 200, body: Some(code_answer(code)) },
                        None => Event::Unreachable,
                    }
                }
            }
            Action::Insert(row) => {
                log.inserts += 1;
                Event::Stored { ok: db.insert_transfer(row).is_ok() }
            }
            Action::Sleep { millis, failure } => {
                log.millis = millis;
                log.failure = failure;
                return (indexer, log);
            }
        };
        let next = indexer.run(event);
        indexer = next.0;
        action = next.1;
    }
}

#[test]
fn new_indexer_is_idle_and_keeps_its_configuration() {
    let indexer = Indexer::new("key".to_string(), "postgres://db", 5000);
    assert_eq!(indexer.phase(), Phase::Idle);
    assert_eq!(indexer.endpoint_url(), "https://mainnet.infura.io/v3/key");
    assert_eq!(indexer.database_url(), "postgres://db");
    assert_eq!(indexer.poll_interval(), 5000);
}

#[test]
fn transfer_between_two_accounts_gives_one_row() {
    let mut db = Db::new();
    let indexer = Indexer::new("key".to_string(), "postgres://db", 5000);
    let (indexer, log) = tick(indexer, block("0x6553f100", vec![transfer_tx()]), &[("0x11", "0x"), ("0x22", "0x")], &mut db);
    assert!(log.failure.is_none());
    assert_eq!(log.millis, 5000);
    assert_eq!(log.probed, vec!["0x22", "0x11"]);
    assert_eq!(indexer.phase(), Phase::Sleeping);
    let rows = db.select_all_transfers().unwrap();
    assert_eq!(rows.len(), 1);
    assert_eq!(rows[0].tx_hash, "0xaa");
    assert_eq!(rows[0].block_number, 16);
    assert_eq!(rows[0].timestamp, 1_700_000_000);
    assert_eq!(rows[0].from_address, "0x11");
    assert_eq!(rows[0].to_address, "0x22");
    assert_eq!(rows[0].value, 100_000_000_000_000_000);
    assert_eq!(rows[0].gas, Some(21_000));
    assert_eq!(rows[0].gas_price, Some(1_000_000_000));
    assert_eq!(rows[0].max_fee_per_gas, Some(0));
    assert_eq!(rows[0].max_priority_fee_per_gas, Some(0));
}

#[test]
fn contract_recipient_is_filtered() {
    let mut db = Db::new();
    let indexer = Indexer::new("key".to_string(), "postgres://db", 5000);
    let (_, log) = tick(indexer, block("0x6553f100", vec![transfer_tx()]), &[("0x11", "0x"), ("0x22", "0x60806040")], &mut db);
    assert!(log.failure.is_none());
    assert_eq!(log.probed, vec!["0x22"]);
    assert_eq!(db.select_all_transfers().unwrap().len(), 0);
}

#[test]
fn contract_sender_is_filtered() {
    let mut db = Db::new();
    let indexer = Indexer::new("key".to_string(), "postgres://db", 5000);
    let (_, log) = tick(indexer, block("0x6553f100", vec![transfer_tx()]), &[("0x11", "0x60806040"), ("0x22", "0x")], &mut db);
    assert!(log.failure.is_none());
    assert_eq!(log.probed, vec!["0x22", "0x11"]);
    assert_eq!(db.select_all_transfers().unwrap().len(), 0);
}

#[test]
fn contract_creation_is_skipped() {
    let mut db = Db::new();
    let indexer = Indexer::new("key".to_string(), "postgres://db", 5000);
    let txs = vec![
        tx("0x01", text("0x11"), Json::Null, "0x1"),
        tx("0x02", text("0x11"), text(""), "0x1"),
        object(vec![("hash", text("0x03")), ("from", text("0x11")), ("value", text("0x1"))]),
        tx("0x04", Json::Null, text("0x22"), "0x1"),
        tx("0x05", text(""), text("0x22"), "0x1"),
    ];
    let (_, log) = tick(indexer, block("0x6553f100", txs), &[("0x11", "0x"), ("0x22", "0x")], &mut db);
    assert!(log.failure.is_none());
    assert_eq!(log.probed.len(), 0);
    assert_eq!(log.inserts, 0);
    assert_eq!(db.select_all_transfers().unwrap().len(), 0);
}

#[test]
fn duplicate_ingestion_leaves_one_row() {
    let mut db = Db::new();
    let codes = [("0x11", "0x"), ("0x22", "0x")];
    let indexer = Indexer::new("key".to_string(), "postgres://db", 5000);
    let (indexer, first) = tick(indexer, block("0x6553f100", vec![transfer_tx()]), &codes, &mut db);
    assert!(first.failure.is_none());
    assert_eq!(db.select_all_transfers().unwrap().len(), 1);
    let (_, second) = tick(indexer, block("0x6553f100", vec![transfer_tx()]), &codes, &mut db);
    assert!(second.failure.is_none());
    assert_eq!(second.inserts, 1);
    assert_eq!(db.select_all_transfers().unwrap().len(), 1);
}

#[test]
fn rows_of_one_block_share_its_timestamp_and_keep_block_order() {
    let mut db = Db::new();
    let indexer = Indexer::new("key".to_string(), "postgres://db", 5000);
    let txs = vec![
        tx("0x01", text("0x11"), text("0x22"), "0x1"),
        tx("0x02", text("0x33"), text("0x22"), "0x2"),
        tx("0x03", text("0x22"), text("0x11"), "0x3"),
        tx("0x04", text("0x11"), Json::Null, "0x4"),
        tx("0x05", text("0x11"), text("0x11"), "0x5"),
    ];
    let codes = [("0x11", "0x"), ("0x22", "0x"), ("0x33", "0x6080")];
    let (_, log) = tick(indexer, block("0x10", txs), &codes, &mut db);
    assert!(log.failure.is_none());
    assert_eq!(log.probed, vec!["0x22", "0x11", "0x22", "0x33", "0x11", "0x22", "0x11", "0x11"]);
    let rows = db.select_all_transfers().unwrap();
    let hashes: Vec<&str> = rows.iter().map(|r| r.tx_hash.as_str()).collect();
    assert_eq!(hashes, vec!["0x01", "0x03", "0x05"]);
    assert!(rows.iter().all(|r| r.timestamp == 16));
}

#[test]
fn undecodable_transaction_is_skipped_and_the_tick_goes_on() {
    let mut db = Db::new();
    let indexer = Indexer::new("key".to_string(), "postgres://db", 5000);
    let txs = vec![
        tx("0x01", text("0x11"), text("0x22"), "0xzz"),
        tx("0x02", text("0x11"), text("0x22"), "0x10000000000000000"),
        tx("0x03", text("0x11"), text("0x22"), "0x7"),
    ];
    let (_, log) = tick(indexer, block("0x10", txs), &[("0x11", "0x"), ("0x22", "0x")], &mut db);
    assert!(log.failure.is_none());
    let rows = db.select_all_transfers().unwrap();
    assert_eq!(rows.len(), 1);
    assert_eq!(rows[0].tx_hash, "0x03");
    assert_eq!(rows[0].value, 7);
}

#[test]
fn storage_failure_does_not_end_the_tick() {
    let mut db = Db::new();
    db.reset_db().unwrap();
    let indexer = Indexer::new("key".to_string(), "postgres://db", 5000);
    let txs = vec![tx("0x01", text("0x11"), text("0x22"), "0x1"), tx("0x02", text("0x11"), text("0x22"), "0x2")];
    let (_, log) = tick(indexer, block("0x10", txs), &[("0x11", "0x"), ("0x22", "0x")], &mut db);
    assert!(log.failure.is_none());
    assert_eq!(log.inserts, 2);
}

#[test]
fn failed_code_call_ends_the_tick() {
    let mut db = Db::new();
    let indexer = Indexer::new("key".to_string(), "postgres://db", 250);
    let txs = vec![tx("0x01", text("0x11"), text("0x22"), "0x1"), tx("0x02", text("0x22"), text("0x11"), "0x2")];
    let (indexer, log) = tick(indexer, block("0x10", txs), &[("0x22", "0x")], &mut db);
    assert!(matches!(log.failure, Some(TickError::Transport { status: None })));
    assert_eq!(log.millis, 250);
    assert_eq!(log.probed, vec!["0x22", "0x11"]);
    assert_eq!(indexer.phase(), Phase::Sleeping);
    assert_eq!(db.select_all_transfers().unwrap().len(), 0);
}

#[test]
fn block_without_timestamp_is_a_protocol_failure() {
    let indexer = Indexer::new("key".to_string(), "postgres://db", 5000);
    let doc = object(vec![("result", object(vec![("transactions", Json::Array(vec![transfer_tx()]))]))]);
    let (_, action) = indexer.extract_transfers(doc);
    assert!(matches!(action, Action::Sleep { millis: 5000, failure: Some(TickError::Protocol) }));
}

#[test]
fn block_without_transactions_is_a_protocol_failure() {
    let indexer = Indexer::new("key".to_string(), "postgres://db", 5000);
    let doc = object(vec![("result", object(vec![("timestamp", text("0x10"))]))]);
    let (_, action) = indexer.extract_transfers(doc);
    assert!(matches!(action, Action::Sleep { millis: 5000, failure: Some(TickError::Protocol) }));
    let indexer = Indexer::new("key".to_string(), "postgres://db", 5000);
    let (_, action) = indexer.extract_transfers(object(vec![("result", Json::Null)]));
    assert!(matches!(action, Action::Sleep { failure: Some(TickError::Protocol), .. }));
}

#[test]
fn timestamp_that_is_no_hex_is_a_decode_failure() {
    let indexer = Indexer::new("key".to_string(), "postgres://db", 5000);
    let (_, action) = indexer.extract_transfers(block("0xnope", vec![transfer_tx()]));
    match action {
        Action::Sleep { failure: Some(TickError::Decode(e)), .. } => assert_eq!(e.input, "nope"),
        other => panic!("unexpected action {:?}", other),
    }
}

#[test]
fn timestamp_beyond_the_calendar_is_a_decode_failure() {
    let indexer = Indexer::new("key".to_string(), "postgres://db", 5000);
    let (_, action) = indexer.extract_transfers(block("0x7fffffffffffffff", vec![transfer_tx()]));
    match action {
        Action::Sleep { failure: Some(TickError::Decode(e)), .. } => assert_eq!(e.input, "7fffffffffffffff"),
        other => panic!("unexpected action {:?}", other),
    }
    let indexer = Indexer::new("key".to_string(), "postgres://db", 5000);
    let (next, action) = indexer.extract_transfers(block("0x0", vec![transfer_tx()]));
    assert!(matches!(action, Action::Call(_)));
    assert_eq!(next.phase(), Phase::ProbingRecipient);
}

#[test]
fn empty_block_ends_the_tick_without_failure() {
    let mut db = Db::new();
    let indexer = Indexer::new("key".to_string(), "postgres://db", 5000);
    let (indexer, log) = tick(indexer, block("0x10", vec![]), &[], &mut db);
    assert!(log.failure.is_none());
    assert_eq!(log.probed.len(), 0);
    assert_eq!(indexer.phase(), Phase::Sleeping);
}

#[test]
fn failed_block_call_ends_the_tick() {
    let indexer = Indexer::new("key".to_string(), "postgres://db", 5000);
    let (indexer, action) = indexer.run(Event::Wake);
    assert!(matches!(action, Action::Call(_)));
    assert_eq!(indexer.phase(), Phase::Fetching);
    let (indexer, action) = indexer.run(Event::Unreachable);
    assert!(matches!(action, Action::Sleep { millis: 5000, failure: Some(TickError::Transport { status: None }) }));
    assert_eq!(indexer.phase(), Phase::Sleeping);
    let (indexer, _) = indexer.run(Event::Wake);
    let (indexer, action) = indexer.run(Event::Reply { status: 503, body: None });
    assert!(matches!(action, Action::Sleep { failure: Some(TickError::Transport { status: Some(503) }), .. }));
    let (indexer, _) = indexer.run(Event::Wake);
    let (indexer, action) = indexer.run(Event::Reply { status: 200, body: None });
    assert!(matches!(action, Action::Sleep { failure: Some(TickError::Protocol), .. }));
    let (indexer, _) = indexer.run(Event::Wake);
    let error = object(vec![("code", Json::Integer(-32000)), ("message", text("rate limited"))]);
    let (_, action) = indexer.run(Event::Reply { status: 200, body: Some(object(vec![("error", error)])) });
    match action {
        Action::Sleep { failure: Some(TickError::Rpc { code, message }), .. } => {
            assert_eq!(code, -32000);
            assert_eq!(message, "rate limited");
        }
        other => panic!("unexpected action {:?}", other),
    }
}

#[test]
fn event_that_answers_nothing_ends_the_tick() {
    let indexer = Indexer::new("key".to_string(), "postgres://db", 5000);
    let (indexer, action) = indexer.run(Event::Stored { ok: true });
    assert!(matches!(action, Action::Sleep { failure: Some(TickError::Protocol), .. }));
    let (indexer, _) = indexer.run(Event::Wake);
    let (indexer, action) = indexer.run(Event::Wake);
    assert!(matches!(action, Action::Sleep { failure: Some(TickError::Protocol), .. }));
    let (indexer, _) = indexer.run(Event::Wake);
    let (indexer, action) = indexer.run(Event::Reply { status: 200, body: Some(block("0x10", vec![transfer_tx()])) });
    assert!(matches!(action, Action::Call(_)));
    assert_eq!(indexer.phase(), Phase::ProbingRecipient);
    let (indexer, action) = indexer.run(Event::Stored { ok: true });
    assert!(matches!(action, Action::Sleep { failure: Some(TickError::Protocol), .. }));
    assert_eq!(indexer.phase(), Phase::Sleeping);
}

#[test]
fn code_answer_without_result_is_a_protocol_failure() {
    let answers = vec![
        object(vec![("id", Json::Integer(1))]),
        object(vec![("result", Json::Null)]),
        object(vec![("result", Json::Integer(0))]),
        Json::Array(vec![]),
    ];
    for answer in answers {
        let indexer = Indexer::new("key".to_string(), "postgres://db", 5000);
        let (indexer, _) = indexer.run(Event::Wake);
        let (indexer, _) = indexer.run(Event::Reply { status: 200, body: Some(block("0x10", vec![transfer_tx(), transfer_tx()])) });
        assert_eq!(indexer.phase(), Phase::ProbingRecipient);
        let (indexer, action) = indexer.run(Event::Reply { status: 200, body: Some(answer) });
        assert!(matches!(action, Action::Sleep { millis: 5000, failure: Some(TickError::Protocol) }));
        assert_eq!(indexer.phase(), Phase::Sleeping);
    }
    let indexer = Indexer::new("key".to_string(), "postgres://db", 5000);
    let (indexer, _) = indexer.run(Event::Wake);
    let (indexer, _) = indexer.run(Event::Reply { status: 200, body: Some(block("0x10", vec![transfer_tx()])) });
    let (indexer, _) = indexer.run(Event::Reply { status: 200, body: Some(code_answer("0x")) });
    assert_eq!(indexer.phase(), Phase::ProbingSender);
    let (indexer, action) = indexer.run(Event::Reply { status: 200, body: Some(object(vec![])) });
    assert!(matches!(action, Action::Sleep { failure: Some(TickError::Protocol), .. }));
    assert_eq!(indexer.phase(), Phase::Sleeping);
}

#[test]
fn empty_code_is_code_and_drops_the_transaction() {
    let mut db = Db::new();
    let indexer = Indexer::new("key".to_string(), "postgres://db", 5000);
    let (_, log) = tick(indexer, block("0x10", vec![transfer_tx()]), &[("0x11", "0x"), ("0x22", "")], &mut db);
    assert!(log.failure.is_none());
    assert_eq!(log.probed, vec!["0x22"]);
    assert_eq!(log.inserts, 0);
}

#[test]
fn the_phases_of_one_transfer() {
    let indexer = Indexer::new("key".to_string(), "postgres://db", 5000);
    let (indexer, _) = indexer.run(Event::Wake);
    let (indexer, _) = indexer.run(Event::Reply { status: 200, body: Some(block("0x10", vec![transfer_tx()])) });
    assert_eq!(indexer.phase(), Phase::ProbingRecipient);
    let (indexer, action) = indexer.run(Event::Reply { status: 200, body: Some(code_answer("0x")) });
    assert_eq!(indexer.phase(), Phase::ProbingSender);
    match action {
        Action::Call(body) => assert_eq!(body.get("params").unwrap().as_array().unwrap()[0].as_str(), Some("0x11")),
        other => panic!("unexpected action {:?}", other),
    }
    let (indexer, action) = indexer.run(Event::Reply { status: 200, body: Some(code_answer("0x")) });
    assert_eq!(indexer.phase(), Phase::Writing);
    assert!(matches!(action, Action::Insert(_)));
    let (indexer, action) = indexer.run(Event::Stored { ok: false });
    assert_eq!(indexer.phase(), Phase::Sleeping);
    assert!(matches!(action, Action::Sleep { millis: 5000, failure: None }));
}

use super_octo_engine::amount::Amount;
use super_octo_engine::data_records::InputRecord;
use super_octo_engine::engine::{AccountSummary, Engine};

fn apply(engine: &mut Engine, oper_type: &str, client: u16, tx: u32, units: u64) {
    let record = InputRecord {
        oper_type: oper_type.to_string(),
        client,
        tx,
        amount: Some(Amount(units)),
    };
    assert!(engine.process_record(record).is_ok());
}

#[test]
fn report_has_one_line_for_each_client() {
    let mut engine = Engine::new();
    apply(&mut engine, "deposit", 2, 1, 100_000);
    apply(&mut engine, "deposit", 1, 1, 15_000);
    apply(&mut engine, "deposit", 1, 2, 20_000);
    apply(&mut engine, "withdrawal", 1, 3, 5_000);
    apply(&mut engine, "dispute", 1, 2, 0);
    apply(&mut engine, "deposit", 300, 7, 1);

    let mut rows = engine.output();
    rows.sort_by_key(|row| row.client);
    assert_eq!(
        rows,
        vec![
            AccountSummary {
                client: 1,
                available: Amount(10_000),
                held: Amount(20_000),
                total: Amount(30_000),
                locked: true,
            },
            AccountSummary {
                client: 2,
                available: Amount(100_000),
                held: Amount(0),
                total: Amount(100_000),
                locked: false,
            },
            AccountSummary {
                client: 300,
                available: Amount(1),
                held: Amount(0),
                total: Amount(1),
                locked: false,
            },
        ]
    );
}

#[test]
fn report_does_not_change_the_ledger() {
    let mut engine = Engine::new();
    apply(&mut engine, "deposit", 1, 1, 15_000);
    let first = engine.output();
    let second = engine.output();
    assert_eq!(first, second);
    assert_eq!(engine.account(1).unwrap().available(), Amount(15_000));
    assert_eq!(engine.account(1).unwrap().operation_count(), 1);
}

#[test]
fn report_total_is_available_plus_held() {
    let mut engine = Engine::new();
    for client in 0..40u16 {
        apply(&mut engine, "deposit", client, 1, 1_000 + client as u64);
        apply(&mut engine, "deposit", client, 2, 500);
        if client % 2 == 0 {
            apply(&mut engine, "dispute", client, 2, 0);
        }
    }
    let rows = engine.output();
    assert_eq!(rows.len(), 40);
    let mut seen = vec![false; 40];
    for row in rows {
        assert!(!seen[row.client as usize]);
        seen[row.client as usize] = true;
        assert_eq!(row.total, Amount(1_500 + row.client as u64));
        assert_eq!(row.total.0, row.available.0 + row.held.0);
        assert_eq!(row.locked, row.client % 2 == 0);
        assert_eq!(row.held, Amount(if row.client % 2 == 0 { 500 } else { 0 }));
    }
    assert!(seen.iter().all(|&client| client));
}

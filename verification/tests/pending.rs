use rhc_bot::effect::{expire, reject, Effect};
use rhc_bot::json::Json;
use rhc_bot::pending::{claim_slot, Pending, PendingRow, StoreOp};

fn row(user_id: i64, chat_id: i64, deadline: i64) -> PendingRow {
    PendingRow { user_id, chat_id, deadline, failures: 0, busy: 0 }
}

fn apply_all(table: &mut Pending, effects: &[Effect]) {
    for effect in effects {
        if let Effect::Store(op) = effect {
            table.apply(*op);
        }
    }
}

#[test]
fn a_row_is_replaced() {
    let mut table = Pending::new();
    table.apply(StoreOp::Insert(row(1, 10, 100)));
    table.apply(StoreOp::Insert(row(2, 10, 100)));
    table.apply(StoreOp::Insert(row(1, 11, 100)));
    table.apply(StoreOp::Insert(row(1, 10, 200)));
    assert_eq!(table.rows(), &vec![row(2, 10, 100), row(1, 11, 100), row(1, 10, 200)]);
}

#[test]
fn rows_of_a_table_are_distinct() {
    let table = Pending::from_rows(&vec![row(1, 10, 100), row(2, 10, 5), row(1, 10, 300)]);
    assert_eq!(table.rows(), &vec![row(2, 10, 5), row(1, 10, 300)]);
}

#[test]
fn a_removed_row_is_gone() {
    let mut table = Pending::from_rows(&vec![row(1, 10, 1), row(1, 11, 2), row(2, 10, 3)]);
    table.apply(StoreOp::Delete { user: 1, chat: 10 });
    assert_eq!(table.rows(), &vec![row(1, 11, 2), row(2, 10, 3)]);
    table.apply(StoreOp::Delete { user: 9, chat: 10 });
    assert_eq!(table.rows().len(), 2);
}

#[test]
fn the_latest_row_of_a_user_is_found() {
    let table = Pending::from_rows(&vec![row(1, 10, 5), row(2, 20, 99), row(1, 11, 8), row(1, 12, 8)]);
    assert_eq!(table.latest(1), Some(row(1, 11, 8)));
    assert_eq!(table.latest(2), Some(row(2, 20, 99)));
    assert_eq!(table.latest(3), None);
}

#[test]
fn attempts_are_limited() {
    let mut table = Pending::from_rows(&vec![row(1, 10, 5), row(2, 10, 5), row(3, 10, 5)]);
    assert!(claim_slot(&mut table, 1, 10, 2));
    assert!(!claim_slot(&mut table, 1, 10, 2));
    assert!(!claim_slot(&mut table, 4, 10, 2));
    assert!(claim_slot(&mut table, 2, 10, 2));
    assert!(!claim_slot(&mut table, 3, 10, 2));
    assert_eq!(table.rows().iter().filter(|r| r.busy == 1).count(), 2);
    table.apply(StoreOp::Release { user: 1, chat: 10 });
    assert!(claim_slot(&mut table, 3, 10, 2));
    assert!(!claim_slot(&mut table, 1, 10, 0));
}

#[test]
fn expiry_leaves_those_in_time() {
    let rows = vec![row(1, 10, 99), row(2, 10, 100), row(3, 10, 50)];
    let mut table = Pending::from_rows(&rows);
    let late = table.expired(100);
    assert_eq!(late, vec![rows[0], rows[2]]);
    let effects = expire(&late);
    assert_eq!(effects.len(), 4);
    match (&effects[2], &effects[3]) {
        (Effect::Store(op), Effect::Call(request)) => {
            assert_eq!(*op, StoreOp::Delete { user: 3, chat: 10 });
            assert_eq!(request.method, "banChatMember");
            let body = Json::object()
                .with("chat_id", Json::Int(10))
                .with("user_id", Json::Int(3))
                .with("revoke_messages", Json::Bool(true));
            assert_eq!(format!("{:?}", request.body), format!("{body:?}"));
        }
        other => panic!("{other:?}"),
    }
    apply_all(&mut table, &effects);
    assert_eq!(table.rows(), &vec![rows[1]]);
}

#[test]
fn a_first_failure_is_counted() {
    let mut table = Pending::from_rows(&vec![row(1, 10, 5), row(2, 10, 5)]);
    assert!(claim_slot(&mut table, 1, 10, 2));
    let effects = reject(1, 10, 0);
    assert_eq!(effects.len(), 2);
    assert!(matches!(&effects[0], Effect::Call(r) if r.method == "sendMessage"
        && r.body.field("chat_id").as_i64() == Some(1)
        && r.body.field("text").is_text("验证失败\nVerification failed")));
    apply_all(&mut table, &effects);
    let counted = PendingRow { failures: 1, ..row(1, 10, 5) };
    assert_eq!(table.rows(), &vec![counted, row(2, 10, 5)]);
}

#[test]
fn a_second_failure_is_final() {
    let mut table = Pending::from_rows(&vec![row(1, 10, 5), row(2, 10, 5)]);
    let effects = reject(1, 10, 1);
    assert!(effects
        .iter()
        .any(|e| matches!(e, Effect::Call(r) if r.method == "banChatMember")));
    apply_all(&mut table, &effects);
    assert_eq!(table.rows(), &vec![row(2, 10, 5)]);
    assert_eq!(reject(1, 10, 5).len(), 3);
    assert_eq!(reject(1, 10, -1).len(), 2);
}

use tower_sessions_rorm_store::error::RormStoreError;
use tower_sessions_rorm_store::ids::{id_from_text, id_to_text};
use tower_sessions_rorm_store::record::{
    create_action, decode_id, is_expired, is_live, record_from_row, save_action, CreateAction,
    SaveAction, SessionRecord,
};
use tower_sessions_rorm_store::table::SessionTable;

const T: i128 = 1_700_000_000_000_000_000;
const SECOND: i128 = 1_000_000_000;

fn record(id: i128, expiry: i128, data: &str) -> SessionRecord {
    SessionRecord { id, expiry, data: data.to_string() }
}

fn create(table: &mut SessionTable, rec: &mut SessionRecord) {
    assert!(table.create(rec, 1000));
}

#[test]
fn forced_collision_retries_with_new_id() {
    let mut table = SessionTable::new();
    let x = id_from_text("eHh4eHh4eHh4eHh4eHh4eA").unwrap();
    let mut a = record(x, T + 10 * SECOND, "{\"user\":\"a\"}");
    create(&mut table, &mut a);
    assert_eq!(a.id, x);

    let mut b = record(x, T + 20 * SECOND, "{\"user\":\"b\"}");
    assert!(!table.create_step(&mut b));
    create(&mut table, &mut b);
    assert_ne!(b.id, x);
    assert_eq!(table.len(), 2);

    let still = table.load(x, T).unwrap();
    assert_eq!(still.data, "{\"user\":\"a\"}");
    assert_eq!(still.expiry, T + 10 * SECOND);
    let other = table.load(b.id, T).unwrap();
    assert_eq!(other.data, "{\"user\":\"b\"}");
}

#[test]
fn many_creates_keep_ids_distinct() {
    let mut table = SessionTable::new();
    let mut ids: Vec<i128> = Vec::new();
    for _ in 0..50 {
        let mut r = record(7, T + SECOND, "{}");
        create(&mut table, &mut r);
        assert!(!ids.contains(&r.id));
        ids.push(r.id);
    }
    assert_eq!(table.len(), 50);
    ids.sort();
    ids.dedup();
    assert_eq!(ids.len(), 50);
}

#[test]
fn load_hides_rows_at_or_before_now() {
    let mut table = SessionTable::new();
    table.save(&record(3, T, "{\"k\":1}"));
    assert!(table.load(3, T - 1).is_some());
    assert!(table.load(3, T - 10 * SECOND).is_some());
    assert!(table.load(3, T).is_none());
    assert!(table.load(3, T + 1).is_none());
    assert!(table.load(4, T - 1).is_none());
    let r = table.load(3, T - 1).unwrap();
    assert_eq!(r.id, 3);
    assert_eq!(r.expiry, T);
    assert_eq!(r.data, "{\"k\":1}");
}

#[test]
fn save_twice_same_as_once() {
    let mut table = SessionTable::new();
    let r = record(11, T + SECOND, "{\"a\":true}");
    table.save(&r);
    table.save(&r);
    assert_eq!(table.len(), 1);
    let got = table.load(11, T).unwrap();
    assert_eq!(got.data, "{\"a\":true}");
    assert_eq!(got.expiry, T + SECOND);
}

#[test]
fn save_overwrites_expiry_and_data() {
    let mut table = SessionTable::new();
    table.save(&record(11, T + SECOND, "{\"a\":1}"));
    table.save(&record(11, T + 5 * SECOND, "{\"a\":2}"));
    assert_eq!(table.len(), 1);
    let got = table.load(11, T + 2 * SECOND).unwrap();
    assert_eq!(got.data, "{\"a\":2}");
    assert_eq!(got.expiry, T + 5 * SECOND);
}

#[test]
fn save_on_new_id_matches_create_then_save() {
    let r = record(21, T + SECOND, "{\"n\":5}");
    let mut saved_only = SessionTable::new();
    saved_only.save(&r);

    let mut created = SessionTable::new();
    let mut c = record(21, T + SECOND, "{\"n\":5}");
    assert!(created.create_step(&mut c));
    created.save(&r);

    assert_eq!(saved_only.len(), created.len());
    let a = saved_only.load(21, T).unwrap();
    let b = created.load(21, T).unwrap();
    assert_eq!(a.data, b.data);
    assert_eq!(a.expiry, b.expiry);
}

#[test]
fn delete_twice_leaves_no_row() {
    let mut table = SessionTable::new();
    table.save(&record(1, T + SECOND, "{}"));
    table.save(&record(2, T + SECOND, "{}"));
    table.delete(1);
    table.delete(1);
    assert_eq!(table.len(), 1);
    assert!(table.load(1, T).is_none());
    assert!(table.load(2, T).is_some());
    table.delete(9);
    assert_eq!(table.len(), 1);
}

#[test]
fn purge_removes_only_rows_expired_before_now() {
    let mut table = SessionTable::new();
    table.save(&record(1, T - 1, "{}"));
    table.save(&record(2, T, "{}"));
    table.save(&record(3, T + 1, "{}"));
    table.delete_expired(T);
    assert_eq!(table.len(), 2);
    assert!(table.load(1, T - 2).is_none());
    assert!(table.load(2, T - 2).is_some());
    assert!(table.load(3, T - 2).is_some());
}

#[test]
fn clock_based_load_and_purge() {
    let far_future: i128 = 32_503_680_000 * SECOND;
    let mut table = SessionTable::new();
    table.save(&record(1, far_future, "{}"));
    table.save(&record(2, SECOND, "{}"));
    assert!(table.load_now(1).is_some());
    assert!(table.load_now(2).is_none());
    table.delete_expired_now();
    assert_eq!(table.len(), 1);
    assert!(table.load_now(1).is_some());
}

#[test]
fn empty_table_has_nothing() {
    let mut table = SessionTable::new();
    assert_eq!(table.len(), 0);
    assert!(table.load(0, 0).is_none());
    table.delete(0);
    table.delete_expired(0);
    assert_eq!(table.len(), 0);
}

#[test]
fn id_text_is_url_safe_base64() {
    assert_eq!(id_to_text(0), "AAAAAAAAAAAAAAAAAAAAAA");
    assert_eq!(id_to_text(1), "AQAAAAAAAAAAAAAAAAAAAA");
    assert_eq!(id_to_text(-1).len(), 22);
    for v in [0i128, 1, -1, i128::MAX, i128::MIN, 123_456_789] {
        assert_eq!(id_from_text(&id_to_text(v)).unwrap(), v);
    }
}

#[test]
fn bad_stored_id_is_a_decoding_error() {
    assert!(matches!(decode_id("not an id!"), Err(RormStoreError::DecodingFailed(_))));
    assert!(matches!(decode_id(""), Err(RormStoreError::DecodingFailed(_))));
    assert_eq!(decode_id("AQAAAAAAAAAAAAAAAAAAAA").ok(), Some(1));
    let r = record_from_row("%%", T, "{}".to_string());
    assert!(matches!(r, Err(RormStoreError::DecodingFailed(_))));
}

#[test]
fn stored_row_reads_back() {
    let r = record_from_row("AQAAAAAAAAAAAAAAAAAAAA", T, "{\"x\":0}".to_string()).ok().unwrap();
    assert_eq!(r.id, 1);
    assert_eq!(r.expiry, T);
    assert_eq!(r.data, "{\"x\":0}");
}

#[test]
fn decisions_on_lookup() {
    assert_eq!(create_action(true), CreateAction::Regenerate);
    assert_eq!(create_action(false), CreateAction::Insert);
    assert_eq!(save_action(true), SaveAction::Update);
    assert_eq!(save_action(false), SaveAction::Insert);
    assert!(is_live(T + 1, T));
    assert!(!is_live(T, T));
    assert!(is_expired(T - 1, T));
    assert!(!is_expired(T, T));
}

#[test]
fn create_keeps_a_free_id() {
    let mut table = SessionTable::new();
    let mut r = record(42, T + SECOND, "{\"v\":1}");
    assert!(table.create(&mut r, 1));
    assert_eq!(r.id, 42);
    assert_eq!(table.len(), 1);
    assert_eq!(table.load(42, T).unwrap().data, "{\"v\":1}");
}

#[test]
fn create_without_attempts_changes_nothing() {
    let mut table = SessionTable::new();
    let mut r = record(42, T + SECOND, "{}");
    assert!(!table.create(&mut r, 0));
    assert_eq!(r.id, 42);
    assert_eq!(table.len(), 0);
}

#[test]
fn create_step_on_taken_id_leaves_table() {
    let mut table = SessionTable::new();
    table.save(&record(8, T + SECOND, "{\"first\":1}"));
    let mut r = record(8, T + 2 * SECOND, "{\"second\":2}");
    assert!(!table.create_step(&mut r));
    assert_eq!(table.len(), 1);
    assert_eq!(r.expiry, T + 2 * SECOND);
    assert_eq!(r.data, "{\"second\":2}");
    assert_eq!(table.load(8, T).unwrap().data, "{\"first\":1}");
}

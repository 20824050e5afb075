use pot_gtk::history::HistoryStore;

struct TestContext {
    _dir: tempfile::TempDir,
    db: HistoryStore,
}

fn open_test_db() -> TestContext {
    let dir = tempfile::tempdir().unwrap();
    let db_path = dir.path().join("test_history.db");
    let db = match HistoryStore::open_at(db_path.to_str().unwrap()) {
        Ok(db) => db,
        Err(_) => panic!("Failed to open test history DB"),
    };
    TestContext { _dir: dir, db }
}

#[test]
fn insert_and_list() {
    let mut ctx = open_test_db();
    let now = 1000;
    assert!(ctx.db.insert("hello", "你好", "en", "zh-CN", "google", now).is_ok());
    let entries = match ctx.db.list(1, 10) {
        Ok(e) => e,
        Err(_) => panic!("list failed"),
    };
    let found = entries.iter().find(|e| e.source == "hello" && e.target == "你好");
    assert!(found.is_some(), "inserted entry not found in list");
    let entry = found.unwrap();
    assert_eq!(entry.from_lang, "en");
    assert_eq!(entry.to_lang, "zh-CN");
    assert_eq!(entry.service, "google");
    assert_eq!(entry.timestamp, now);
}

#[test]
fn insert_multiple_and_paginate() {
    let mut ctx = open_test_db();
    for i in 0..5 {
        assert!(ctx
            .db
            .insert(&format!("text_{}", i), &format!("结果_{}", i), "en", "zh-CN", "test", 2000 + i as i64)
            .is_ok());
    }
    let page1 = ctx.db.list(1, 3).ok().unwrap();
    assert_eq!(page1.len(), 3, "page 1 should have 3 items");
    let page2 = ctx.db.list(2, 3).ok().unwrap();
    assert!(page2.len() >= 2, "page 2 should have at least 2 items");
}

#[test]
fn delete_entry() {
    let mut ctx = open_test_db();
    let id = ctx.db.insert("to_delete", "删除", "en", "zh-CN", "test", 3000).ok().unwrap();
    assert!(ctx.db.delete(id).is_ok());
    let entries = ctx.db.list(1, 10).ok().unwrap();
    assert!(entries.iter().all(|e| e.id != id), "deleted entry should not appear");
}

#[test]
fn count_entries_increases() {
    let mut ctx = open_test_db();
    let before = ctx.db.count().ok().unwrap();
    assert!(ctx.db.insert("count_test", "计数", "en", "zh-CN", "test", 4000).is_ok());
    let after = ctx.db.count().ok().unwrap();
    assert!(after > before, "count should increase after insert (before={}, after={})", before, after);
}

#[test]
fn clear_removes_inserted_entries() {
    let mut ctx = open_test_db();
    assert!(ctx.db.insert("clear_a", "清除A", "en", "zh-CN", "clear_test", 5000).is_ok());
    assert!(ctx.db.insert("clear_b", "清除B", "en", "zh-CN", "clear_test", 5001).is_ok());
    let before = ctx.db.count().ok().unwrap();
    assert!(before >= 2);
    assert!(ctx.db.clear().is_ok());
    let after = ctx.db.count().ok().unwrap();
    assert_eq!(after, 0, "clear should remove all entries");
}

#[test]
fn newest_entries_come_first_in_memory() {
    let mut db = match HistoryStore::open_in_memory() {
        Ok(db) => db,
        Err(_) => panic!("open failed"),
    };
    let a = db.insert("a", "A", "en", "de", "google", 1).ok().unwrap();
    let b = db.insert("b", "B", "en", "de", "google", 2).ok().unwrap();
    assert!(b > a);
    let page = db.list(1, 1).ok().unwrap();
    assert_eq!(page.len(), 1);
    assert_eq!(page[0].source, "b");
}

use ferro_core::db::labels::{build_for_messages_query, group_by_message, Label};
use ferro_core::db::messages::{
    build_folder_count_query, build_folder_query, build_label_query, build_list_recent_query,
    message_columns, set_folder_count, Folder, FolderCounts,
};
use ferro_core::message_actions::removable_ids;

fn placeholders(sql: &str) -> usize {
    sql.matches('?').count()
}

#[test]
fn list_recent_query_adds_only_the_filters_asked_for() {
    let (sql, params) = build_list_recent_query(None, None, 50);
    assert_eq!(
        sql,
        format!("SELECT {} FROM messages WHERE is_deleted = 0 ORDER BY date_header DESC LIMIT ?", message_columns())
    );
    assert_eq!(params, vec![50]);
    let (sql, params) = build_list_recent_query(Some(3), Some(1000), 20);
    assert!(sql.ends_with(" WHERE is_deleted = 0 AND account_id = ? AND date_header < ? ORDER BY date_header DESC LIMIT ?"));
    assert_eq!(params, vec![3, 1000, 20]);
    assert_eq!(placeholders(&sql), params.len());
}

#[test]
fn folder_queries_pick_each_folder() {
    let now = 5000;
    let (sql, params) = build_folder_query(Folder::Inbox, None, None, 10, now);
    assert!(sql.contains("WHERE is_deleted = 0 AND is_archived = 0 AND (snoozed_until IS NULL OR snoozed_until <= ?) ORDER BY"));
    assert_eq!(params, vec![now, 10]);
    let (sql, params) = build_folder_query(Folder::Snoozed, Some(2), Some(99), 10, now);
    assert!(sql.contains("snoozed_until IS NOT NULL AND snoozed_until > ? AND account_id = ? AND date_header < ?"));
    assert_eq!(params, vec![now, 2, 99, 10]);
    for folder in [Folder::Inbox, Folder::Starred, Folder::Snoozed, Folder::Archive, Folder::Trash] {
        let (sql, params) = build_folder_query(folder, Some(1), Some(2), 3, now);
        assert_eq!(placeholders(&sql), params.len());
        let (sql, params) = build_folder_count_query(folder, Some(1), now);
        assert!(sql.starts_with("SELECT COUNT(*) FROM messages WHERE "));
        assert_eq!(placeholders(&sql), params.len());
    }
    let (sql, params) = build_folder_count_query(Folder::Trash, None, now);
    assert_eq!(sql, "SELECT COUNT(*) FROM messages WHERE is_deleted = 1");
    assert!(params.is_empty());
}

#[test]
fn label_queries_bind_the_label_first() {
    let (sql, params) = build_label_query(7, Some(123), 40);
    assert!(sql.contains("WHERE message_labels.label_id = ? AND messages.is_deleted = 0 AND messages.date_header < ?"));
    assert_eq!(params, vec![7, 123, 40]);
    assert_eq!(placeholders(&sql), params.len());
    let (sql, params) = build_for_messages_query(&[4, 5, 6]);
    assert!(sql.ends_with("IN (?,?,?)"));
    assert_eq!(params, vec![4, 5, 6]);
}

#[test]
fn folder_counts_are_set_in_place() {
    let mut counts = FolderCounts::default();
    set_folder_count(&mut counts, Folder::Snoozed, 4);
    set_folder_count(&mut counts, Folder::Trash, 9);
    assert_eq!(counts, FolderCounts { inbox: 0, starred: 0, snoozed: 4, archive: 0, trash: 9 });
}

fn label(id: i64, name: &str) -> Label {
    Label { id, name: name.to_string(), color: "#000000".to_string() }
}

#[test]
fn set_on_message_and_counts_and_for_messages() {
    let map = group_by_message(vec![
        (1, label(10, "a")),
        (2, label(11, "b")),
        (1, label(12, "c")),
    ]);
    assert_eq!(map.len(), 2);
    assert_eq!(map[&1], vec![label(10, "a"), label(12, "c")]);
    assert_eq!(map[&2], vec![label(11, "b")]);
    assert!(!map.contains_key(&3));
}

#[test]
fn purge_removes_only_what_left_the_index() {
    assert_eq!(removable_ids(&[1, 2, 3], true, &[]), vec![1, 2, 3]);
    assert_eq!(removable_ids(&[1, 2, 3], false, &[true, false, true]), vec![1, 3]);
    assert_eq!(removable_ids(&[1, 2], false, &[false, false]), Vec::<i64>::new());
}

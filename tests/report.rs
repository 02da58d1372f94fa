use game_launcher::report::{
    group_history, history_type_for_scope, HistoryGame, HistoryScope, HistoryType, RawHistoryRow,
};

fn raw(bucket: &str, game: i64, total: i64) -> RawHistoryRow {
    RawHistoryRow { bucket: Some(bucket.to_string()), game, total_playtime: total }
}

fn game(id: i64, playtime: i64) -> HistoryGame {
    HistoryGame { id, playtime }
}

#[test]
fn aggregation_grouping() {
    let rows = vec![raw("2024-01", 10, 300), raw("2024-01", 11, 150), raw("2023-12", 10, 900)];
    let entries = group_history(HistoryType::WEEK, &rows).unwrap();
    assert_eq!(entries.len(), 2);
    assert_eq!(entries[0].date, "2024-01");
    assert_eq!(entries[0].games, vec![game(10, 300), game(11, 150)]);
    assert_eq!(entries[0].kind, HistoryType::WEEK);
    assert_eq!(entries[1].date, "2023-12");
    assert_eq!(entries[1].games, vec![game(10, 900)]);
    assert_eq!(entries[1].kind, HistoryType::WEEK);
}

#[test]
fn grouping_does_not_split_unsorted_buckets() {
    let rows = vec![raw("03", 1, 10), raw("02", 2, 20), raw("03", 3, 30)];
    let entries = group_history(HistoryType::MONTH, &rows).unwrap();
    assert_eq!(entries.len(), 2);
    assert_eq!(entries[0].date, "03");
    assert_eq!(entries[0].games, vec![game(1, 10), game(3, 30)]);
    assert_eq!(entries[1].date, "02");
    assert_eq!(entries[1].games, vec![game(2, 20)]);
}

#[test]
fn grouping_of_no_rows_is_empty() {
    assert_eq!(group_history(HistoryType::DAY, &Vec::new()), Some(Vec::new()));
}

#[test]
fn unlabelled_row_fails_grouping() {
    let rows = vec![
        raw("2024-01-02", 1, 10),
        RawHistoryRow { bucket: None, game: 2, total_playtime: 5 },
    ];
    assert_eq!(group_history(HistoryType::DAY, &rows), None);
}

#[test]
fn scope_label_mapping() {
    assert_eq!(history_type_for_scope("day"), HistoryType::DAY);
    assert_eq!(history_type_for_scope("month"), HistoryType::WEEK);
    assert_eq!(history_type_for_scope("year"), HistoryType::MONTH);
    assert_eq!(history_type_for_scope("week"), HistoryType::DAY);
    assert_eq!(history_type_for_scope(""), HistoryType::DAY);
}

#[test]
fn scope_names() {
    assert_eq!(HistoryScope::from_name("week"), Some(HistoryScope::Week));
    assert_eq!(HistoryScope::from_name("month"), Some(HistoryScope::Month));
    assert_eq!(HistoryScope::from_name("year"), Some(HistoryScope::Year));
    assert_eq!(HistoryScope::from_name("day"), None);
    assert_eq!(HistoryScope::from_name("Week"), None);
}

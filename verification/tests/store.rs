use dolist::database::Db;

fn fresh() -> Db {
    Db::new_in_memory().expect("in-memory store should open")
}

#[test]
fn add_increases_count_and_defaults() {
    let mut db = fresh();
    assert_eq!(db.get_total_number_of_items().unwrap(), 0);
    db.add_item("A", "first").unwrap();
    assert_eq!(db.get_total_number_of_items().unwrap(), 1);
    let items = db.show_all_items().unwrap();
    assert_eq!(items.len(), 1);
    assert_eq!(items[0].ID, 1);
    assert_eq!(items[0].Name, "A");
    assert_eq!(items[0].Description, "first");
    assert!(!items[0].Status);
    db.add_item("B", "").unwrap();
    let items = db.show_all_items().unwrap();
    assert_eq!(items.len(), 2);
    assert!(items[0].ID > items[1].ID);
    assert_eq!(items[0].ID, 2);
}

#[test]
fn listing_order_is_id_descending() {
    let mut db = fresh();
    db.add_item("A", "").unwrap();
    db.add_item("B", "").unwrap();
    db.add_item("C", "").unwrap();
    let items = db.show_all_items().unwrap();
    let ids: Vec<i32> = items.iter().map(|t| t.ID).collect();
    assert_eq!(ids, vec![3, 2, 1]);
    let names: Vec<&str> = items.iter().map(|t| t.Name.as_str()).collect();
    assert_eq!(names, vec!["C", "B", "A"]);
}

#[test]
fn pages_are_windows_of_the_full_listing() {
    let mut db = fresh();
    for name in ["A", "B", "C", "D", "E"] {
        db.add_item(name, "").unwrap();
    }
    let all = db.show_all_items().unwrap();
    for page in 1u32..=4 {
        for limit in 1u32..=3 {
            let got = db.show_items(&page, &limit).unwrap();
            let off = ((page - 1) * limit) as usize;
            assert!(got.len() <= limit as usize);
            if off >= all.len() {
                assert!(got.is_empty());
            } else {
                assert_eq!(got.len(), (all.len() - off).min(limit as usize));
                for (k, item) in got.iter().enumerate() {
                    assert_eq!(item, &all[off + k]);
                }
            }
        }
    }
}

#[test]
fn page_past_the_end_is_empty_not_an_error() {
    let mut db = fresh();
    db.add_item("A", "").unwrap();
    let got = db.show_items(&2, &10).unwrap();
    assert!(got.is_empty());
    let got = db.show_items(&4000000, &1000000).unwrap();
    assert!(got.is_empty());
}

#[test]
fn count_matches_full_listing_length() {
    let mut db = fresh();
    for i in 0..4 {
        db.add_item(&format!("item {i}"), "").unwrap();
        let all = db.show_all_items().unwrap();
        assert_eq!(db.get_total_number_of_items().unwrap() as usize, all.len());
    }
}

#[test]
fn set_status_round_trip_restores_the_row() {
    let mut db = fresh();
    db.add_item("A", "d").unwrap();
    let before = db.show_all_items().unwrap();
    assert_eq!(db.set_item_status(&1, &true).unwrap(), 1);
    let mid = db.show_all_items().unwrap();
    assert!(mid[0].Status);
    assert_eq!(mid[0].Name, "A");
    assert_eq!(db.set_item_status(&1, &false).unwrap(), 1);
    let after = db.show_all_items().unwrap();
    assert_eq!(after, before);
}

#[test]
fn set_status_on_missing_id_changes_nothing() {
    let mut db = fresh();
    db.add_item("A", "").unwrap();
    let before = db.show_all_items().unwrap();
    assert_eq!(db.set_item_status(&99, &true).unwrap(), 0);
    assert_eq!(db.set_item_status(&99, &false).unwrap(), 0);
    assert_eq!(db.show_all_items().unwrap(), before);
}

#[test]
fn edit_with_empty_values_is_a_counted_noop() {
    let mut db = fresh();
    db.add_item("A", "d").unwrap();
    let before = db.show_all_items().unwrap();
    assert_eq!(db.edit_item(&1, "", "").unwrap(), 1);
    assert_eq!(db.show_all_items().unwrap(), before);
}

#[test]
fn edit_replaces_only_nonempty_fields() {
    let mut db = fresh();
    db.add_item("A", "d").unwrap();
    assert_eq!(db.edit_item(&1, "B", "").unwrap(), 1);
    let items = db.show_all_items().unwrap();
    assert_eq!(items[0].Name, "B");
    assert_eq!(items[0].Description, "d");
    assert_eq!(db.edit_item(&1, "", "e").unwrap(), 1);
    let items = db.show_all_items().unwrap();
    assert_eq!(items[0].Name, "B");
    assert_eq!(items[0].Description, "e");
    assert_eq!(db.edit_item(&1, "C", "f").unwrap(), 1);
    let items = db.show_all_items().unwrap();
    assert_eq!(items[0].Name, "C");
    assert_eq!(items[0].Description, "f");
    assert_eq!(db.edit_item(&7, "X", "y").unwrap(), 0);
}

#[test]
fn delete_removes_exactly_one_row_once() {
    let mut db = fresh();
    db.add_item("A", "").unwrap();
    db.add_item("B", "").unwrap();
    assert_eq!(db.get_total_number_of_items().unwrap(), 2);
    assert_eq!(db.delete_item(&1).unwrap(), 1);
    assert_eq!(db.get_total_number_of_items().unwrap(), 1);
    assert_eq!(db.delete_item(&1).unwrap(), 0);
    assert_eq!(db.get_total_number_of_items().unwrap(), 1);
    let items = db.show_all_items().unwrap();
    assert_eq!(items[0].ID, 2);
}

#[test]
fn ids_are_never_reused_after_delete() {
    let mut db = fresh();
    db.add_item("A", "").unwrap();
    db.add_item("B", "").unwrap();
    assert_eq!(db.delete_item(&2).unwrap(), 1);
    db.add_item("C", "").unwrap();
    let ids: Vec<i32> = db.show_all_items().unwrap().iter().map(|t| t.ID).collect();
    assert_eq!(ids, vec![3, 1]);
}

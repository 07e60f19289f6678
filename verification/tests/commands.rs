use dolist::commands::{
    create_new_item, delete_item, edit_item, format_status, set_item_status, show_list_items,
    total_pages, ApplyOutcome, ListOutcome, NewItemOutcome,
};
use dolist::database::Db;

fn fresh() -> Db {
    Db::new_in_memory().expect("in-memory store should open")
}

#[test]
fn scenario_new_then_list_shows_the_item() {
    let mut db = fresh();
    assert_eq!(create_new_item(&mut db, "Buy milk", ""), NewItemOutcome::Added);
    match show_list_items(&db, &1, &10, false) {
        ListOutcome::Page { items, total, total_pages } => {
            assert_eq!(items.len(), 1);
            assert_eq!(items[0].ID, 1);
            assert_eq!(items[0].Name, "Buy milk");
            assert!(!items[0].Status);
            assert_eq!(format_status(&items[0].Status), "NotDone");
            assert_eq!(total, 1);
            assert_eq!(total_pages, 1);
        }
        _ => panic!("expected a page of items"),
    }
}

#[test]
fn scenario_done_marks_only_the_named_item() {
    let mut db = fresh();
    assert_eq!(create_new_item(&mut db, "A", ""), NewItemOutcome::Added);
    assert_eq!(create_new_item(&mut db, "B", ""), NewItemOutcome::Added);
    assert_eq!(set_item_status(&mut db, &1, &true), ApplyOutcome::Applied);
    match show_list_items(&db, &1, &10, false) {
        ListOutcome::Page { items, .. } => {
            assert_eq!(items.len(), 2);
            assert_eq!(items[0].ID, 2);
            assert!(!items[0].Status);
            assert_eq!(format_status(&items[0].Status), "NotDone");
            assert_eq!(items[1].ID, 1);
            assert!(items[1].Status);
            assert_eq!(format_status(&items[1].Status), "Done");
        }
        _ => panic!("expected a page of items"),
    }
}

#[test]
fn scenario_empty_and_out_of_range_listings() {
    let mut db = fresh();
    let r = show_list_items(&db, &1, &1, false);
    assert!(matches!(r, ListOutcome::NoItems));
    assert_eq!(r.message().unwrap(), "No todo items to show.");
    assert_eq!(create_new_item(&mut db, "A", ""), NewItemOutcome::Added);
    let r = show_list_items(&db, &2, &1, false);
    assert!(matches!(r, ListOutcome::OutOfRangePage));
    assert_eq!(r.message().unwrap(), "Out of range page number.");
}

#[test]
fn zero_page_or_limit_is_rejected_before_the_store() {
    let db = fresh();
    let r = show_list_items(&db, &0, &10, false);
    assert!(matches!(r, ListOutcome::InvalidPage));
    assert_eq!(r.message().unwrap(), "The page number should be a positive number");
    let r = show_list_items(&db, &1, &0, false);
    assert!(matches!(r, ListOutcome::InvalidLimit));
    assert_eq!(r.message().unwrap(), "The limit number should be a positive number");
}

#[test]
fn listing_all_returns_every_item_and_its_count() {
    let mut db = fresh();
    for name in ["A", "B", "C"] {
        assert_eq!(create_new_item(&mut db, name, ""), NewItemOutcome::Added);
    }
    let everything = db.show_all_items().unwrap();
    match show_list_items(&db, &1, &1, true) {
        ListOutcome::All { items, total } => {
            assert_eq!(items, everything);
            assert_eq!(total as usize, items.len());
            assert_eq!(total, 3);
        }
        _ => panic!("expected the full listing"),
    }
}

#[test]
fn paged_listing_message_and_page_count() {
    let mut db = fresh();
    for name in ["A", "B", "C", "D", "E"] {
        assert_eq!(create_new_item(&mut db, name, ""), NewItemOutcome::Added);
    }
    match show_list_items(&db, &2, &2, false) {
        ListOutcome::Page { items, total, total_pages } => {
            assert!(items.len() <= 2);
            assert_eq!(items[0].ID, 3);
            assert_eq!(items[1].ID, 2);
            assert_eq!(total, 5);
            assert_eq!(total_pages, 3);
            assert!(show_list_items(&db, &2, &2, false).message().is_none());
        }
        _ => panic!("expected a page of items"),
    }
}

#[test]
fn creating_with_an_empty_name_touches_nothing() {
    let mut db = fresh();
    assert_eq!(create_new_item(&mut db, "", "something"), NewItemOutcome::EmptyName);
    assert_eq!(db.get_total_number_of_items().unwrap(), 0);
}

#[test]
fn mutations_on_a_missing_id_report_not_found() {
    let mut db = fresh();
    assert_eq!(create_new_item(&mut db, "A", ""), NewItemOutcome::Added);
    let before = db.show_all_items().unwrap();
    assert_eq!(set_item_status(&mut db, &9, &true), ApplyOutcome::NotFound);
    assert_eq!(delete_item(&mut db, &9), ApplyOutcome::NotFound);
    assert_eq!(edit_item(&mut db, &9, "X", "y"), ApplyOutcome::NotFound);
    assert_eq!(db.show_all_items().unwrap(), before);
}

#[test]
fn delete_command_removes_the_row() {
    let mut db = fresh();
    assert_eq!(create_new_item(&mut db, "A", ""), NewItemOutcome::Added);
    assert_eq!(create_new_item(&mut db, "B", ""), NewItemOutcome::Added);
    assert_eq!(delete_item(&mut db, &1), ApplyOutcome::Applied);
    assert_eq!(delete_item(&mut db, &1), ApplyOutcome::NotFound);
    let ids: Vec<i32> = db.show_all_items().unwrap().iter().map(|t| t.ID).collect();
    assert_eq!(ids, vec![2]);
}

#[test]
fn edit_command_keeps_empty_fields() {
    let mut db = fresh();
    assert_eq!(create_new_item(&mut db, "A", "d"), NewItemOutcome::Added);
    let before = db.show_all_items().unwrap();
    assert_eq!(edit_item(&mut db, &1, "", ""), ApplyOutcome::Applied);
    assert_eq!(db.show_all_items().unwrap(), before);
    assert_eq!(edit_item(&mut db, &1, "B", ""), ApplyOutcome::Applied);
    let items = db.show_all_items().unwrap();
    assert_eq!(items[0].Name, "B");
    assert_eq!(items[0].Description, "d");
}

#[test]
fn total_pages_rounds_up_exactly() {
    assert_eq!(total_pages(0, 1), 0);
    assert_eq!(total_pages(1, 10), 1);
    assert_eq!(total_pages(9, 3), 3);
    assert_eq!(total_pages(10, 3), 4);
    assert_eq!(total_pages(u32::MAX, 1), u32::MAX);
    assert_eq!(total_pages(16777217, 1), 16777217);
}

#[test]
fn status_text_is_done_or_notdone() {
    assert_eq!(format_status(&true), "Done");
    assert_eq!(format_status(&false), "NotDone");
}

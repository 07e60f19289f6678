//! The command layer: one function per subcommand, each validating its
//! numeric arguments, invoking one store operation and returning a
//! structured outcome for the caller to render.

use vstd::prelude::*;

use crate::database::{views_of, Db, TodoItem};
use crate::model::{
    has_id, lemma_edit_absent, lemma_edit_empty_is_noop, lemma_remove_id_props,
    lemma_set_status_absent, page_of, remove_id_rows, set_status_rows, ItemModel,
};

verus! {

/// Number of pages needed to show `total` items at `limit` items per page,
/// rounded up.
pub open spec fn spec_ceil_div(total: int, limit: int) -> int
    recommends
        limit >= 1,
{
    (total + limit - 1) / limit
}

/// Total page count for a listing: the ceiling of `total / limit`.
pub fn total_pages(total: u32, limit: u32) -> (r: u32)
    requires
        limit >= 1,
    ensures
        r as int == spec_ceil_div(total as int, limit as int),
{
    let sum: u64 = total as u64 + limit as u64 - 1;
    let pages: u64 = sum / limit as u64;
    proof {
        assert(pages as int == spec_ceil_div(total as int, limit as int)) by (nonlinear_arith)
            requires
                limit >= 1,
                sum == total + limit - 1,
                pages == sum as int / limit as int,
        ;
        assert(pages <= total) by (nonlinear_arith)
            requires
                limit >= 1,
                pages == (total + limit - 1) as int / limit as int,
        ;
    }
    pages as u32
}

/// How creating an item went.
#[derive(Clone, Copy, Debug, PartialEq, Eq, Structural)]
pub enum NewItemOutcome {
    EmptyName,
    StoreFailed,
    Added,
}

/// How a mutation aimed at one id went: applied to the row carrying the id,
/// found no such row, or failed against the store.  A missing id is a normal
/// outcome, not an error.
#[derive(Clone, Copy, Debug, PartialEq, Eq, Structural)]
pub enum ApplyOutcome {
    Applied,
    NotFound,
    StoreFailed,
}

/// How a listing went and what it shows.
pub enum ListOutcome {
    InvalidPage,
    InvalidLimit,
    QueryFailed,
    NoItems,
    OutOfRangePage,
    All { items: Vec<TodoItem>, total: u32 },
    Page { items: Vec<TodoItem>, total: u32, total_pages: u32 },
}

/// What a listing request selects: everything, or one page.
pub open spec fn listed_rows(db: &Db, page: int, limit: int, show_all: bool) -> Seq<ItemModel> {
    if show_all {
        db.rows()
    } else {
        page_of(db.rows(), page, limit)
    }
}

impl ListOutcome {
    /// The fixed message this outcome prints, when it prints one.
    pub open spec fn spec_message(&self) -> Option<Seq<char>> {
        match self {
            ListOutcome::InvalidPage => Some("The page number should be a positive number"@),
            ListOutcome::InvalidLimit => Some("The limit number should be a positive number"@),
            ListOutcome::NoItems => Some("No todo items to show."@),
            ListOutcome::OutOfRangePage => Some("Out of range page number."@),
            _ => None,
        }
    }

    /// The fixed user-facing message for outcomes that print one.
    pub fn message(&self) -> (r: Option<String>)
        ensures
            match r {
                Some(s) => self.spec_message() == Some(s@),
                None => self.spec_message() is None,
            },
    {
        match self {
            ListOutcome::InvalidPage => Some(
                "The page number should be a positive number".to_owned(),
            ),
            ListOutcome::InvalidLimit => Some(
                "The limit number should be a positive number".to_owned(),
            ),
            ListOutcome::NoItems => Some("No todo items to show.".to_owned()),
            ListOutcome::OutOfRangePage => Some("Out of range page number.".to_owned()),
            _ => None,
        }
    }
}

/// The status text a listing shows for a done flag.
pub fn format_status(status: &bool) -> (r: String)
    ensures
        r@ == if *status {
            "Done"@
        } else {
            "NotDone"@
        },
{
    if *status {
        "Done".to_owned()
    } else {
        "NotDone".to_owned()
    }
}

/// The `new` subcommand: insert one item with status NotDone.  An empty name
/// is rejected before the store is touched.
pub fn create_new_item(db: &mut Db, name: &str, description: &str) -> (r: NewItemOutcome)
    requires
        old(db).inv(),
    ensures
        final(db).inv(),
        r == NewItemOutcome::EmptyName <==> name@.len() == 0,
        r == NewItemOutcome::EmptyName ==> final(db).rows() == old(db).rows() && final(db).next_id() == old(db).next_id(),
        r == NewItemOutcome::StoreFailed ==> final(db).rows() == old(db).rows() && final(db).next_id() == old(db).next_id(),
        r == NewItemOutcome::Added ==> final(db).rows().len() == old(db).rows().len() + 1,
        r == NewItemOutcome::Added ==> final(db).rows()[0].id == old(db).next_id(),
        r == NewItemOutcome::Added ==> final(db).rows()[0].name == name@,
        r == NewItemOutcome::Added ==> final(db).rows()[0].description == description@,
        r == NewItemOutcome::Added ==> final(db).rows()[0].status == false,
        r == NewItemOutcome::Added ==> final(db).rows().subrange(
            1,
            final(db).rows().len() as int,
        ) == old(db).rows(),
        r == NewItemOutcome::Added ==> final(db).next_id() == old(db).next_id() + 1,
        r == NewItemOutcome::Added ==> forall|i: int|
            0 <= i < old(db).rows().len() ==> final(db).rows()[0].id > (#[trigger] old(db).rows()[i]).id,
{
    if name.is_empty() {
        return NewItemOutcome::EmptyName;
    }
    match db.add_item(name, description) {
        Ok(()) => NewItemOutcome::Added,
        Err(_) => NewItemOutcome::StoreFailed,
    }
}

/// Classify what a successful listing query returned: for every value of the
/// returned rows the outcome is pinned, so rows that a query handed back can
/// never be reported as a failed query.  The total count is fetched here,
/// only for a non-empty listing, and a failing count degrades to 0.
fn listing_outcome(db: &Db, items: Vec<TodoItem>, page: &u32, limit: &u32, show_all: bool) -> (r:
    ListOutcome)
    requires
        *page >= 1,
        *limit >= 1,
    ensures
        items@.len() == 0 && *page == 1 ==> r is NoItems,
        items@.len() == 0 && *page > 1 ==> r is OutOfRangePage,
        items@.len() > 0 && show_all ==> (r matches ListOutcome::All { items: shown, total }
            && shown == items && (total as int == db.rows().len() || total == 0)),
        items@.len() > 0 && !show_all ==> (r matches ListOutcome::Page {
            items: shown,
            total,
            total_pages,
        } && shown == items && (total as int == db.rows().len() || total == 0)
            && total_pages as int == spec_ceil_div(total as int, *limit as int)),
{
    if items.len() == 0 {
        if *page == 1 {
            ListOutcome::NoItems
        } else {
            ListOutcome::OutOfRangePage
        }
    } else {
        let total = match db.get_total_number_of_items() {
            Ok(n) => n,
            Err(_) => 0,
        };
        if show_all {
            ListOutcome::All { items, total }
        } else {
            let tp = total_pages(total, *limit);
            ListOutcome::Page { items, total, total_pages: tp }
        }
    }
}

/// The `list` subcommand: validate page and limit, query one page or all
/// rows, and report what to show.  A failing count degrades to a total of 0
/// rather than failing the listing.
pub fn show_list_items(db: &Db, page: &u32, limit: &u32, show_all: bool) -> (r: ListOutcome)
    requires
        db.inv(),
    ensures
        r is InvalidPage <==> *page == 0,
        r is InvalidLimit <==> (*page >= 1 && *limit == 0),
        r is QueryFailed ==> *page >= 1 && *limit >= 1,
        r is NoItems ==> *page == 1 && *limit >= 1 && listed_rows(
            db,
            *page as int,
            *limit as int,
            show_all,
        ).len() == 0,
        r is OutOfRangePage ==> *page > 1 && *limit >= 1 && listed_rows(
            db,
            *page as int,
            *limit as int,
            show_all,
        ).len() == 0,
        r matches ListOutcome::All { items, total } ==> show_all && views_of(items@) == db.rows()
            && items@.len() > 0 && (total as int == db.rows().len() || total == 0),
        r matches ListOutcome::Page { items, total, total_pages } ==> !show_all && views_of(items@)
            == page_of(db.rows(), *page as int, *limit as int) && items@.len() > 0 && (
        total as int == db.rows().len() || total == 0) && total_pages as int == spec_ceil_div(
            total as int,
            *limit as int,
        ),
{
    if *page == 0 {
        return ListOutcome::InvalidPage;
    }
    if *limit == 0 {
        return ListOutcome::InvalidLimit;
    }
    let items_res = if show_all {
        db.show_all_items()
    } else {
        db.show_items(page, limit)
    };
    let items = match items_res {
        Ok(v) => v,
        Err(_) => { return ListOutcome::QueryFailed },
    };
    proof {
        if items@.len() == 0 {
            assert(listed_rows(db, *page as int, *limit as int, show_all).len() == 0);
        }
    }
    listing_outcome(db, items, page, limit, show_all)
}

/// The `done` and `notdone` subcommands: set the done flag of the row
/// carrying `id`.
pub fn set_item_status(db: &mut Db, id: &u32, status: &bool) -> (r: ApplyOutcome)
    requires
        old(db).inv(),
    ensures
        final(db).inv(),
        final(db).next_id() == old(db).next_id(),
        r == ApplyOutcome::Applied ==> has_id(old(db).rows(), *id as int) && final(db).rows()
            == set_status_rows(old(db).rows(), *id as int, *status),
        r == ApplyOutcome::NotFound ==> !has_id(old(db).rows(), *id as int) && final(db).rows()
            == old(db).rows(),
        r == ApplyOutcome::StoreFailed ==> final(db).rows() == old(db).rows(),
{
    match db.set_item_status(id, status) {
        Ok(n) => {
            if n == 0 {
                proof {
                    lemma_set_status_absent(old(db).rows(), *id as int, *status);
                }
                ApplyOutcome::NotFound
            } else {
                ApplyOutcome::Applied
            }
        },
        Err(_) => ApplyOutcome::StoreFailed,
    }
}

/// The `delete` subcommand: remove the row carrying `id`.  Its id is never
/// assigned again by the store.
pub fn delete_item(db: &mut Db, id: &u32) -> (r: ApplyOutcome)
    requires
        old(db).inv(),
    ensures
        final(db).inv(),
        final(db).next_id() == old(db).next_id(),
        r == ApplyOutcome::Applied ==> has_id(old(db).rows(), *id as int) && final(db).rows()
            == remove_id_rows(old(db).rows(), *id as int) && final(db).rows().len() == old(db).rows().len() - 1,
        r == ApplyOutcome::NotFound ==> !has_id(old(db).rows(), *id as int) && final(db).rows()
            == old(db).rows(),
        r == ApplyOutcome::StoreFailed ==> final(db).rows() == old(db).rows(),
{
    match db.delete_item(id) {
        Ok(n) => {
            if n == 0 {
                proof {
                    lemma_remove_id_props(old(db).rows(), *id as int);
                }
                ApplyOutcome::NotFound
            } else {
                ApplyOutcome::Applied
            }
        },
        Err(_) => ApplyOutcome::StoreFailed,
    }
}

/// The `edit` subcommand: replace the name and description of the row
/// carrying `id`, keeping any field whose replacement value is empty.  With
/// both replacements empty an existing row is reported as applied and stays
/// unchanged.
pub fn edit_item(db: &mut Db, id: &u32, name: &str, description: &str) -> (r: ApplyOutcome)
    requires
        old(db).inv(),
    ensures
        final(db).inv(),
        final(db).next_id() == old(db).next_id(),
        r == ApplyOutcome::Applied ==> has_id(old(db).rows(), *id as int) && final(db).rows()
            == crate::model::edit_rows(old(db).rows(), *id as int, name@, description@),
        r == ApplyOutcome::Applied && name@.len() == 0 && description@.len() == 0 ==> final(db).rows() == old(db).rows(),
        r == ApplyOutcome::NotFound ==> !has_id(old(db).rows(), *id as int) && final(db).rows()
            == old(db).rows(),
        r == ApplyOutcome::StoreFailed ==> final(db).rows() == old(db).rows(),
{
    match db.edit_item(id, name, description) {
        Ok(n) => {
            if n == 0 {
                proof {
                    lemma_edit_absent(old(db).rows(), *id as int, name@, description@);
                }
                ApplyOutcome::NotFound
            } else {
                proof {
                    if name@.len() == 0 && description@.len() == 0 {
                        lemma_edit_empty_is_noop(old(db).rows(), *id as int);
                    }
                }
                ApplyOutcome::Applied
            }
        },
        Err(_) => ApplyOutcome::StoreFailed,
    }
}

} // verus!

//! From items to the table of their ages: one row per item, longest
//! ownership first.

use crate::calendar::Ymd;
use crate::date::CivilDate;
use crate::delta::{civil_delta, relativedelta, DeltaError};
use crate::label::duration_label;
use crate::parse::{parse_date, parsed_date, DateParseError};
use vstd::multiset::{lemma_multiset_empty_len, Multiset};
use vstd::prelude::*;
use vstd::seq_lib::{to_multiset_build, to_multiset_insert, to_multiset_len};

verus! {

/// Something that was acquired on one day and possibly released on a later
/// one.
#[derive(Debug, PartialEq, Eq)]
pub struct Item {
    pub name: String,
    pub acquired_on: CivilDate,
    /// `None` while the item is still owned.
    pub released_on: Option<CivilDate>,
}

/// An item as plain values.
pub struct ItemView {
    pub name: Seq<char>,
    pub acquired_on: Ymd,
    pub released_on: Option<Ymd>,
}

impl View for Item {
    type V = ItemView;

    open spec fn view(&self) -> ItemView {
        ItemView {
            name: self.name@,
            acquired_on: self.acquired_on@,
            released_on: match self.released_on {
                Some(date) => Some(date@),
                None => None,
            },
        }
    }
}

/// One line of the table: an item, its age in words, and the weight that
/// ranks it.
#[derive(Debug, PartialEq, Eq)]
pub struct AgeRow {
    pub name: String,
    pub label: String,
    pub sort_key: i32,
}

/// A table line as plain values.
pub struct AgeRowView {
    pub name: Seq<char>,
    pub label: Seq<char>,
    pub sort_key: int,
}

impl View for AgeRow {
    type V = AgeRowView;

    open spec fn view(&self) -> AgeRowView {
        AgeRowView { name: self.name@, label: self.label@, sort_key: self.sort_key as int }
    }
}

/// The day up to which an ownership is measured: the release day, or today
/// for an item that is still owned.
pub open spec fn measured_end(released_on: Option<Ymd>, today: Ymd) -> Ymd {
    match released_on {
        Some(date) => date,
        None => today,
    }
}

/// The table line of an item, or the reason why it has none.
pub open spec fn age_row(item: ItemView, today: Ymd) -> Result<AgeRowView, DeltaError> {
    match civil_delta(item.acquired_on, measured_end(item.released_on, today)) {
        Ok(span) => Ok(
            AgeRowView { name: item.name, label: duration_label(span), sort_key: span.sort_key() },
        ),
        Err(error) => Err(error),
    }
}

/// The table lines of `items`, in the order of the items.
pub open spec fn age_rows(items: Seq<Item>, today: Ymd) -> Seq<AgeRowView> {
    Seq::new(items.len(), |i: int| age_row(items[i]@, today)->Ok_0)
}

/// Every item was acquired no later than the day its ownership is measured
/// to.
pub open spec fn all_ordered(items: Seq<Item>, today: Ymd) -> bool {
    forall|i: int|
        0 <= i < items.len() ==> !(#[trigger] measured_end(items[i]@.released_on, today)).is_before(
            items[i]@.acquired_on,
        )
}

/// The rows as plain values.
pub open spec fn row_views(rows: Seq<AgeRow>) -> Seq<AgeRowView> {
    rows.map_values(|row: AgeRow| row@)
}

/// No row has a smaller sort key than a row after it.
pub open spec fn is_ranked(rows: Seq<AgeRow>) -> bool {
    forall|i: int, j: int| 0 <= i < j < rows.len() ==> rows[i].sort_key >= rows[j].sort_key
}

/// The item that a record describes, or the first of its two date texts,
/// acquisition before release, that cannot be read as a date.
pub open spec fn record_item(name: Seq<char>, bought: Seq<char>, stopped: Option<Seq<char>>) -> Result<
    ItemView,
    Seq<char>,
> {
    match parsed_date(bought) {
        None => Err(bought),
        Some(acquired_on) => match stopped {
            None => Ok(ItemView { name: name, acquired_on: acquired_on, released_on: None }),
            Some(text) => match parsed_date(text) {
                None => Err(text),
                Some(released_on) => Ok(
                    ItemView {
                        name: name,
                        acquired_on: acquired_on,
                        released_on: Some(released_on),
                    },
                ),
            },
        },
    }
}

/// Builds an item from the texts of a record: its name, the day it was
/// bought, and the day its use stopped, if it did.
pub fn item_from_record(name: &str, bought: &str, stopped: Option<&str>) -> (r: Result<
    Item,
    DateParseError,
>)
    ensures
        match r {
            Ok(item) => record_item(
                name@,
                bought@,
                match stopped {
                    Some(text) => Some(text@),
                    None => None,
                },
            ) == Ok::<ItemView, Seq<char>>(item@),
            Err(error) => record_item(
                name@,
                bought@,
                match stopped {
                    Some(text) => Some(text@),
                    None => None,
                },
            ) == Err::<ItemView, Seq<char>>(error.text@),
        },
{
    let acquired_on = match parse_date(bought) {
        Ok(date) => date,
        Err(error) => {
            return Err(error);
        },
    };
    let released_on = match stopped {
        Some(text) => match parse_date(text) {
            Ok(date) => Some(date),
            Err(error) => {
                return Err(error);
            },
        },
        None => None,
    };
    Ok(Item { name: name.to_owned(), acquired_on, released_on })
}

/// The table line of one item, its ownership measured to its release day or,
/// where it has none, to `today`.
pub fn item_age(item: &Item, today: CivilDate) -> (r: Result<AgeRow, DeltaError>)
    ensures
        match r {
            Ok(row) => age_row(item@, today@) == Ok::<AgeRowView, DeltaError>(row@),
            Err(error) => age_row(item@, today@) == Err::<AgeRowView, DeltaError>(error),
        },
        r is Err <==> measured_end(item@.released_on, today@).is_before(item@.acquired_on),
        r matches Err(error) ==> error == DeltaError::InvalidOrdering,
{
    let end_date = match item.released_on {
        Some(date) => date,
        None => today,
    };
    match relativedelta(item.acquired_on, end_date) {
        Ok(duration) => Ok(
            AgeRow {
                name: item.name.clone(),
                label: duration.label(),
                sort_key: duration.sort_key(),
            },
        ),
        Err(error) => Err(error),
    }
}

proof fn lemma_no_rows(rows: Seq<AgeRowView>)
    requires
        rows.len() == 0,
    ensures
        rows.to_multiset() == Multiset::<AgeRowView>::empty(),
{
    to_multiset_len(rows);
    lemma_multiset_empty_len(rows.to_multiset());
}

/// Orders rows by descending sort key. Every row is kept; the order among
/// rows with equal keys is left open.
pub fn rank_rows(rows: Vec<AgeRow>) -> (ranked: Vec<AgeRow>)
    ensures
        is_ranked(ranked@),
        row_views(ranked@).to_multiset() == row_views(rows@).to_multiset(),
{
    let ghost given = rows@;
    let mut rest = rows;
    let mut ranked: Vec<AgeRow> = Vec::new();
    proof {
        lemma_no_rows(row_views(ranked@));
        assert(row_views(ranked@).to_multiset().add(row_views(rest@).to_multiset())
            =~= row_views(given).to_multiset());
    }
    while rest.len() > 0
        invariant
            is_ranked(ranked@),
            row_views(ranked@).to_multiset().add(row_views(rest@).to_multiset()) == row_views(
                given,
            ).to_multiset(),
        decreases rest.len(),
    {
        let ghost rest_before = rest@;
        let ghost ranked_before = ranked@;
        let row = rest.pop().unwrap();
        let mut at: usize = 0;
        while at < ranked.len() && ranked[at].sort_key > row.sort_key
            invariant
                at <= ranked.len(),
                forall|k: int| 0 <= k < at ==> ranked@[k].sort_key > row.sort_key,
            decreases ranked.len() - at,
        {
            at += 1;
        }
        ranked.insert(at, row);
        proof {
            assert(row_views(rest_before) =~= row_views(rest@).push(row@));
            assert(row_views(ranked@) =~= row_views(ranked_before).insert(at as int, row@));
            to_multiset_build(row_views(rest@), row@);
            to_multiset_insert(row_views(ranked_before), at as int, row@);
            assert(row_views(ranked@).to_multiset().add(row_views(rest@).to_multiset())
                =~= row_views(ranked_before).to_multiset().add(
                row_views(rest_before).to_multiset(),
            ));
        }
    }
    proof {
        lemma_no_rows(row_views(rest@));
        assert(row_views(ranked@).to_multiset().add(Multiset::<AgeRowView>::empty())
            =~= row_views(ranked@).to_multiset());
    }
    ranked
}

/// The table of ages for `items`: one row per item, longest ownership
/// first. A single item whose ownership ends before it begins fails the
/// whole table.
pub fn ownership_table(items: &Vec<Item>, today: CivilDate) -> (r: Result<Vec<AgeRow>, DeltaError>)
    ensures
        r is Ok <==> all_ordered(items@, today@),
        r matches Ok(rows) ==> is_ranked(rows@) && row_views(rows@).to_multiset() == age_rows(
            items@,
            today@,
        ).to_multiset(),
        r matches Err(error) ==> error == DeltaError::InvalidOrdering,
{
    let mut rows: Vec<AgeRow> = Vec::new();
    let mut i: usize = 0;
    while i < items.len()
        invariant
            i <= items.len(),
            rows.len() == i,
            forall|k: int|
                0 <= k < i ==> age_row(#[trigger] items@[k]@, today@) == Ok::<
                    AgeRowView,
                    DeltaError,
                >(rows@[k]@),
            forall|k: int|
                0 <= k < i ==> !(#[trigger] measured_end(
                    items@[k]@.released_on,
                    today@,
                )).is_before(items@[k]@.acquired_on),
        decreases items.len() - i,
    {
        match item_age(&items[i], today) {
            Ok(row) => {
                rows.push(row);
            },
            Err(error) => {
                return Err(error);
            },
        }
        i += 1;
    }
    assert(row_views(rows@) =~= age_rows(items@, today@));
    Ok(rank_rows(rows))
}

} // verus!

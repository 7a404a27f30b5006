//! What is shown of the directories inside the buckets.
//!
//! The caller reads the directories; this module turns what was read into
//! the rows of the listing. A directory that could not be read, an entry that
//! could not be read and an entry whose name has no underscore each give one
//! problem. None of them stops the listing.

use crate::errors::{ErrorKind, ErrorView, ZugzugError};
use crate::naming::{entry_parts, malformed_entry, split_entry_name};
use crate::registry::BucketView;
use crate::store::Bucket;
use vstd::prelude::*;

verus! {

/// What the file system gave for one entry of a directory.
#[derive(Debug, PartialEq, Eq)]
pub enum EntryReading {
    /// An entry: the last part of its path, and the whole path.
    Found { name: String, path: String },
    /// The entry could not be read; the reason, in words.
    Failed(String),
}

/// An entry that was read, as a mathematical value.
pub enum EntryView {
    Found { name: Seq<char>, path: Seq<char> },
    Failed(Seq<char>),
}

impl View for EntryReading {
    type V = EntryView;

    open spec fn view(&self) -> EntryView {
        match self {
            EntryReading::Found { name, path } => EntryView::Found { name: name@, path: path@ },
            EntryReading::Failed(reason) => EntryView::Failed(reason@),
        }
    }
}

/// What the file system gave for the directory of a bucket.
#[derive(Debug, PartialEq, Eq)]
pub enum DirReading {
    /// The entries, in the order in which they were read.
    Entries(Vec<EntryReading>),
    /// The directory could not be read; the reason, in words.
    Unreadable(String),
}

/// A directory that was read, as a mathematical value.
pub enum ReadingView {
    Entries(Seq<EntryView>),
    Unreadable(Seq<char>),
}

impl View for DirReading {
    type V = ReadingView;

    open spec fn view(&self) -> ReadingView {
        match self {
            DirReading::Entries(entries) => ReadingView::Entries(
                entries@.map_values(|e: EntryReading| e@),
            ),
            DirReading::Unreadable(reason) => ReadingView::Unreadable(reason@),
        }
    }
}

/// One line of the listing: a directory, the bucket it is in, and the two
/// parts of its name.
#[derive(Debug, PartialEq, Eq)]
pub struct ListRow {
    pub bucket: String,
    pub date: String,
    pub name: String,
    pub path: String,
}

/// A line of the listing, as a mathematical value.
pub struct RowView {
    pub bucket: Seq<char>,
    pub date: Seq<char>,
    pub name: Seq<char>,
    pub path: Seq<char>,
}

impl View for ListRow {
    type V = RowView;

    open spec fn view(&self) -> RowView {
        RowView { bucket: self.bucket@, date: self.date@, name: self.name@, path: self.path@ }
    }
}

/// What the listing holds for one thing that was read: a row, or a problem
/// to report.
#[derive(Debug, PartialEq, Eq)]
pub enum ListItem {
    Row(ListRow),
    Problem(ZugzugError),
}

/// An item of the listing, as a mathematical value.
pub enum ItemView {
    Row(RowView),
    Problem(ErrorView),
}

impl View for ListItem {
    type V = ItemView;

    open spec fn view(&self) -> ItemView {
        match self {
            ListItem::Row(row) => ItemView::Row(row@),
            ListItem::Problem(err) => ItemView::Problem(err@),
        }
    }
}

/// The items of a vector, each as a mathematical value.
pub open spec fn item_views(items: Seq<ListItem>) -> Seq<ItemView> {
    items.map_values(|item: ListItem| item@)
}

/// The problem that stands for an entry that could not be read.
pub open spec fn entry_unreadable(reason: Seq<char>) -> ErrorView {
    ErrorView { kind: ErrorKind::DirectoryReadError, details: "Error reading dir: "@ + reason }
}

/// The problem that stands for a directory that could not be read.
pub open spec fn dir_unreadable(reason: Seq<char>) -> ErrorView {
    ErrorView { kind: ErrorKind::DirectoryReadError, details: "Unable to read dir: "@ + reason }
}

/// The item that one entry of the directory of `bucket` gives.
pub open spec fn entry_item(bucket: Seq<char>, entry: EntryView) -> ItemView {
    match entry {
        EntryView::Found { name, path } => match entry_parts(name) {
            Some((date, rest)) => ItemView::Row(
                RowView { bucket: bucket, date: date, name: rest, path: path },
            ),
            None => ItemView::Problem(malformed_entry(name)),
        },
        EntryView::Failed(reason) => ItemView::Problem(entry_unreadable(reason)),
    }
}

/// The items that the directory of `bucket` gives: one for each entry, in
/// the order in which they were read, or one problem for the whole
/// directory.
pub open spec fn bucket_items(bucket: Seq<char>, reading: ReadingView) -> Seq<ItemView> {
    match reading {
        ReadingView::Entries(entries) => entries.map_values(
            |entry: EntryView| entry_item(bucket, entry),
        ),
        ReadingView::Unreadable(reason) => seq![ItemView::Problem(dir_unreadable(reason))],
    }
}

/// The items that a run of directories gives: those of the first, then
/// those of the second, and so on.
pub open spec fn all_items(readings: Seq<(BucketView, ReadingView)>) -> Seq<ItemView>
    decreases readings.len(),
{
    if readings.len() == 0 {
        Seq::empty()
    } else {
        all_items(readings.drop_last()) + bucket_items(readings.last().0.name, readings.last().1)
    }
}

/// The readings of a vector, each as a mathematical value.
pub open spec fn reading_views(readings: Seq<(Bucket, DirReading)>) -> Seq<
    (BucketView, ReadingView),
> {
    readings.map_values(|r: (Bucket, DirReading)| (r.0@, r.1@))
}

/// The problem whose message is `lead` followed by `reason`.
fn problem(kind: ErrorKind, lead: &str, reason: &str) -> (item: ListItem)
    ensures
        item@ == ItemView::Problem(ErrorView { kind: kind, details: lead@ + reason@ }),
{
    let mut details = lead.to_owned();
    details.append(reason);
    ListItem::Problem(ZugzugError::new(kind, details.as_str()))
}

/// The item for one entry of the directory of the bucket called `bucket`.
pub fn list_entry(bucket: &str, entry: &EntryReading) -> (item: ListItem)
    ensures
        item@ == entry_item(bucket@, entry@),
{
    match entry {
        EntryReading::Found { name, path } => match split_entry_name(name.as_str()) {
            Ok((date, rest)) => ListItem::Row(
                ListRow { bucket: bucket.to_owned(), date: date, name: rest, path: path.clone() },
            ),
            Err(err) => ListItem::Problem(err),
        },
        EntryReading::Failed(reason) => problem(
            ErrorKind::DirectoryReadError,
            "Error reading dir: ",
            reason.as_str(),
        ),
    }
}

/// Adds to `items` what the directory of `bucket` gives.
pub fn list_bucket(items: &mut Vec<ListItem>, bucket: &Bucket, reading: &DirReading)
    ensures
        item_views(final(items)@) == item_views(old(items)@) + bucket_items(
            bucket@.name,
            reading@,
        ),
{
    match reading {
        DirReading::Entries(entries) => {
            let ghost before = item_views(items@);
            let ghost expected = bucket_items(bucket@.name, reading@);
            let mut i: usize = 0;
            while i < entries.len()
                invariant
                    i <= entries.len(),
                    reading@ == ReadingView::Entries(entries@.map_values(|e: EntryReading| e@)),
                    expected == bucket_items(bucket@.name, reading@),
                    item_views(items@) == before + expected.take(i as int),
                decreases entries.len() - i,
            {
                let item = list_entry(bucket.name.as_str(), &entries[i]);
                assert(expected.len() == entries.len() && expected[i as int] == item@);
                let ghost shown = item_views(items@);
                items.push(item);
                assert(item_views(items@) =~= shown.push(expected[i as int]));
                assert(expected.take(i + 1) =~= expected.take(i as int).push(expected[i as int]));
                i += 1;
            }
            assert(expected.take(i as int) =~= expected);
        },
        DirReading::Unreadable(reason) => {
            let item = problem(
                ErrorKind::DirectoryReadError,
                "Unable to read dir: ",
                reason.as_str(),
            );
            items.push(item);
            assert(item_views(items@) =~= item_views(old(items)@) + bucket_items(
                bucket@.name,
                reading@,
            ));
        },
    }
}

/// The listing of the directories that were read, bucket after bucket. An
/// entry that cannot be shown gives a problem in its place, and the entries
/// after it, in this bucket and in the others, are listed all the same.
pub fn list_directories(readings: &Vec<(Bucket, DirReading)>) -> (items: Vec<ListItem>)
    ensures
        item_views(items@) == all_items(reading_views(readings@)),
{
    let mut items: Vec<ListItem> = Vec::new();
    let ghost all = reading_views(readings@);
    let mut i: usize = 0;
    assert(item_views(items@) =~= all_items(all.take(0)));
    while i < readings.len()
        invariant
            i <= readings.len(),
            all == reading_views(readings@),
            item_views(items@) == all_items(all.take(i as int)),
        decreases readings.len() - i,
    {
        list_bucket(&mut items, &readings[i].0, &readings[i].1);
        proof {
            assert(all.take(i + 1).drop_last() =~= all.take(i as int));
        }
        i += 1;
    }
    assert(all.take(i as int) =~= all);
    items
}

/// The exit status that a listing stands for: that of its first problem, or
/// zero where it has none.
pub open spec fn status_of(items: Seq<ItemView>) -> u8
    decreases items.len(),
{
    if items.len() == 0 {
        0
    } else {
        match items.first() {
            ItemView::Problem(err) => err.kind.code(),
            ItemView::Row(_) => status_of(items.drop_first()),
        }
    }
}

/// The exit status of a program that has shown this listing: zero where
/// every item is a row, and else the status of the first problem.
pub fn listing_status(items: &Vec<ListItem>) -> (status: u8)
    ensures
        status == status_of(item_views(items@)),
{
    let ghost all = item_views(items@);
    let mut i: usize = 0;
    assert(all.skip(0) =~= all);
    while i < items.len()
        invariant
            i <= items.len(),
            all == item_views(items@),
            status_of(all) == status_of(all.skip(i as int)),
        decreases items.len() - i,
    {
        proof {
            assert(all.skip(i as int).drop_first() =~= all.skip(i + 1));
            assert(all.skip(i as int).first() == items@[i as int]@);
        }
        match &items[i] {
            ListItem::Problem(err) => {
                return err.kind().exit_code();
            },
            ListItem::Row(_) => {},
        }
        i += 1;
    }
    0
}

/// Every entry of every directory that could be read has its item in the
/// listing, whatever became of the entries and the directories around it.
pub proof fn lemma_entry_is_listed(
    readings: Seq<(BucketView, ReadingView)>,
    entries: Seq<EntryView>,
    k: int,
    j: int,
)
    requires
        0 <= k < readings.len(),
        readings[k].1 == ReadingView::Entries(entries),
        0 <= j < entries.len(),
    ensures
        all_items(readings).contains(entry_item(readings[k].0.name, entries[j])),
    decreases readings.len(),
{
    let front = all_items(readings.drop_last());
    let back = bucket_items(readings.last().0.name, readings.last().1);
    if k == readings.len() - 1 {
        assert((front + back)[front.len() + j] == back[j]);
    } else {
        lemma_entry_is_listed(readings.drop_last(), entries, k, j);
        let item = entry_item(readings[k].0.name, entries[j]);
        let at: int = choose|i: int| 0 <= i < front.len() && front[i] == item;
        assert((front + back)[at] == item);
    }
}

} // verus!

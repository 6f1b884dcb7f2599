//! What the built-in tools work out around their calls to the backend: the
//! lines they report, and what goes into a report.

use crate::utils::json::array_items;
use crate::utils::json::JsonObject;
use crate::utils::json::array_value;
use crate::utils::json::insert_entry;
use crate::utils::json::into_array;
use crate::utils::json::new_object;
use crate::utils::json::object_entries;
use crate::utils::json::object_of;
use crate::utils::json::object_value;
use crate::utils::json::remove_entry;
use crate::utils::json::string_text;
use crate::utils::json::string_value;
use crate::utils::text::decimal;
use crate::utils::text::decimal_string;
use crate::utils::text::push_text;
use crate::utils::text::utf8;
use serde_json::Value;
use vstd::prelude::*;
use vstd::string::StringExecFns;

verus! {

/// The number of matches that a search reports.
pub struct TotalHits {
    pub value: u64,
}

/// A column of an ES|QL result.
pub struct Column {
    pub name: String,
    pub type_: String,
}

/// One part of what the search tool reports, in the order of the report.
pub enum SearchContent {
    /// A line of text.
    Text(String),
    /// The documents that were found.
    Hits,
    /// The aggregation results.
    Aggregations,
}

pub enum SearchContentView {
    Text(Seq<u8>),
    Hits,
    Aggregations,
}

impl View for SearchContent {
    type V = SearchContentView;

    open spec fn view(&self) -> SearchContentView {
        match self {
            SearchContent::Text(text) => SearchContentView::Text(utf8(text@)),
            SearchContent::Hits => SearchContentView::Hits,
            SearchContent::Aggregations => SearchContentView::Aggregations,
        }
    }
}

/// The views of the parts of a report.
pub open spec fn content_views(contents: Seq<SearchContent>) -> Seq<SearchContentView> {
    contents.map_values(|c: SearchContent| c@)
}

/// `Found <count> <what>:`
pub open spec fn found(count: nat, what: Seq<u8>) -> Seq<u8> {
    utf8("Found "@) + decimal(count) + utf8(" "@) + what + utf8(":"@)
}

fn found_line(count: usize, what: &str) -> (line: String)
    ensures
        utf8(line@) == found(count as nat, utf8(what@)),
{
    let mut line = String::from_str("Found ");
    let count = decimal_string(count as u64);
    push_text(&mut line, count.as_str());
    push_text(&mut line, " ");
    push_text(&mut line, what);
    push_text(&mut line, ":");
    line
}

/// The first line of a list of indices.
pub fn indices_summary(count: usize) -> (line: String)
    ensures
        utf8(line@) == found(count as nat, utf8("indices"@)),
{
    found_line(count, "indices")
}

/// The first line of a list of shards.
pub fn shards_summary(count: usize) -> (line: String)
    ensures
        utf8(line@) == found(count as nat, utf8("shards"@)),
{
    found_line(count, "shards")
}

/// `Mappings for index <index>:`
pub open spec fn mappings_for(index: Seq<u8>) -> Seq<u8> {
    utf8("Mappings for index "@) + index + utf8(":"@)
}

/// The first line of the mappings of an index.
pub fn mappings_heading(index: &str) -> (line: String)
    ensures
        utf8(line@) == mappings_for(utf8(index@)),
{
    let mut line = String::from_str("Mappings for index ");
    push_text(&mut line, index);
    push_text(&mut line, ":");
    line
}

/// The total as the search tool words it.
pub open spec fn total_text(total: Option<TotalHits>) -> Seq<u8> {
    match total {
        Some(t) => decimal(t.value as nat),
        None => utf8("unknown"@),
    }
}

/// `Total results: <total>, showing <shown>.`
pub open spec fn search_stats(total: Option<TotalHits>, shown: nat) -> Seq<u8> {
    utf8("Total results: "@) + total_text(total) + utf8(", showing "@) + decimal(shown) + utf8(
        "."@,
    )
}

/// The heading of the aggregation results.
pub open spec fn aggregations_heading() -> Seq<u8> {
    utf8("Aggregations results:"@)
}

/// What the search tool reports: the statistics unless there are
/// aggregations and no documents, the documents where there are any, the
/// aggregations with their heading where there are any.
pub open spec fn search_contents(total: Option<TotalHits>, shown: nat, aggregations: bool) -> Seq<
    SearchContentView,
> {
    let stats = if !aggregations || shown > 0 {
        seq![SearchContentView::Text(search_stats(total, shown))]
    } else {
        seq![]
    };
    let hits = if shown > 0 {
        seq![SearchContentView::Hits]
    } else {
        seq![]
    };
    let results = if aggregations {
        seq![SearchContentView::Text(aggregations_heading()), SearchContentView::Aggregations]
    } else {
        seq![]
    };
    stats + hits + results
}

fn stats_line(total: &Option<TotalHits>, shown: usize) -> (line: String)
    ensures
        utf8(line@) == search_stats(*total, shown as nat),
{
    let mut line = String::from_str("Total results: ");
    match total {
        Some(t) => {
            let value = decimal_string(t.value);
            push_text(&mut line, value.as_str());
        },
        None => {
            push_text(&mut line, "unknown");
        },
    }
    push_text(&mut line, ", showing ");
    let shown = decimal_string(shown as u64);
    push_text(&mut line, shown.as_str());
    push_text(&mut line, ".");
    line
}

proof fn lemma_contents_push(v: Seq<SearchContent>, x: SearchContent)
    ensures
        content_views(v.push(x)) == content_views(v).push(x@),
{
    assert(content_views(v.push(x)) =~= content_views(v).push(x@));
}

/// Lays out the report of a search that found `total` documents, got
/// `shown` of them, and has aggregation results or not.
pub fn search_report(total: Option<TotalHits>, shown: usize, aggregations: bool) -> (contents:
    Vec<SearchContent>)
    ensures
        content_views(contents@) == search_contents(total, shown as nat, aggregations),
{
    let mut contents: Vec<SearchContent> = Vec::new();
    assert(content_views(contents@) =~= Seq::<SearchContentView>::empty());
    if !aggregations || shown > 0 {
        let ghost before = contents@;
        contents.push(SearchContent::Text(stats_line(&total, shown)));
        proof {
            lemma_contents_push(before, contents@.last());
        }
    }
    if shown > 0 {
        let ghost before = contents@;
        contents.push(SearchContent::Hits);
        proof {
            lemma_contents_push(before, contents@.last());
        }
    }
    if aggregations {
        let ghost before = contents@;
        contents.push(SearchContent::Text(String::from_str("Aggregations results:")));
        proof {
            lemma_contents_push(before, contents@.last());
        }
        let ghost before = contents@;
        contents.push(SearchContent::Aggregations);
        proof {
            lemma_contents_push(before, contents@.last());
        }
    }
    assert(content_views(contents@) =~= search_contents(total, shown as nat, aggregations));
    contents
}

/// The key under which a query names the fields of a document to return.
pub open spec fn source_key() -> Seq<char> {
    "_source"@
}

/// The items that a query has under `_source`, where that is an array.
pub open spec fn source_items(query: Map<Seq<char>, Value>) -> Seq<Value> {
    if query.dom().contains(source_key()) {
        match array_items(query[source_key()]) {
            Some(items) => items,
            None => seq![],
        }
    } else {
        seq![]
    }
}

/// `source` is an array: the items that the query had under `_source`, then
/// one string for each of `fields`, in their order.
pub open spec fn is_source_with(source: Value, query: Map<Seq<char>, Value>, fields: Seq<String>)
    -> bool {
    let kept = source_items(query);
    &&& array_items(source) matches Some(items)
    &&& items.len() == kept.len() + fields.len()
    &&& items.take(kept.len() as int) == kept
    &&& forall|i: int|
        0 <= i < fields.len() ==> string_text(#[trigger] items[kept.len() + i]) == Some(fields[i]@)
}

/// Asks for `fields` in the documents that a query returns: they are added
/// to the `_source` of the query where that is an array, and are its
/// `_source` else. Without `fields` the query stays as it is.
pub fn add_source_fields(
    query_body: &mut JsonObject,
    fields: Option<Vec<String>>,
)
    ensures
        fields is None ==> object_entries(*final(query_body)) == object_entries(*old(query_body)),
        fields matches Some(names) ==> exists|source: Value|
            is_source_with(source, object_entries(*old(query_body)), names@) && object_entries(
                *final(query_body),
            ) == object_entries(*old(query_body)).insert(source_key(), source),
{
    let names = match fields {
        Some(names) => names,
        None => {
            return ;
        },
    };
    let ghost query = object_entries(*query_body);
    let mut items: Vec<Value> = match remove_entry(query_body, "_source") {
        Some(value) => match into_array(value) {
            Ok(items) => items,
            Err(_) => Vec::new(),
        },
        None => Vec::new(),
    };
    let ghost kept = items@;
    assert(kept == source_items(query));
    let ghost all = names@;
    for name in it: names
        invariant
            it.seq() == all,
            items@.len() == kept.len() + it.index(),
            items@.take(kept.len() as int) == kept,
            forall|i: int|
                0 <= i < it.index() ==> string_text(#[trigger] items@[kept.len() + i]) == Some(
                    all[i]@,
                ),
    {
        let ghost before = items@;
        items.push(string_value(name));
        proof {
            assert(items@.take(kept.len() as int) =~= before.take(kept.len() as int));
            assert forall|i: int| 0 <= i < it.index() + 1 implies string_text(
                #[trigger] items@[kept.len() + i],
            ) == Some(all[i]@) by {
                if i < it.index() {
                    assert(items@[kept.len() + i] == before[kept.len() + i]);
                }
            }
        }
    }
    let source = array_value(items);
    insert_entry(query_body, String::from_str("_source"), source);
    proof {
        assert(is_source_with(source, query, all));
        assert(object_entries(*query_body) =~= query.insert(source_key(), source));
    }
}

/// What the object of a row holds: each cell under the name of its column,
/// the last one where columns share a name.
pub open spec fn row_entries(columns: Seq<Column>, row: Seq<Value>) -> Map<Seq<char>, Value>
    decreases row.len(),
{
    if row.len() == 0 {
        Map::empty()
    } else {
        row_entries(columns, row.drop_last()).insert(columns[row.len() - 1].name@, row.last())
    }
}

/// Makes the object of one row.
fn row_object(columns: &Vec<Column>, row: Vec<Value>) -> (object: Value)
    requires
        row.len() <= columns.len(),
    ensures
        object_of(object) == Some(row_entries(columns@, row@)),
{
    let mut entries = new_object();
    let ghost cells = row@;
    let mut i: usize = 0;
    assert(cells.take(0) =~= Seq::<Value>::empty());
    for cell in it: row
        invariant
            it.seq() == cells,
            i == it.index(),
            cells.len() <= columns.len(),
            object_entries(entries) == row_entries(columns@, cells.take(i as int)),
    {
        assert(cells.take(i + 1).drop_last() =~= cells.take(i as int));
        insert_entry(&mut entries, columns[i].name.clone(), cell);
        i += 1;
    }
    assert(cells.take(cells.len() as int) =~= cells);
    object_value(entries)
}

/// Transforms the rows of an ES|QL result into an array of objects, one for
/// each row. No row may be longer than the list of columns.
pub fn esql_objects(columns: &Vec<Column>, values: Vec<Vec<Value>>) -> (objects: Vec<Value>)
    requires
        forall|r: int| 0 <= r < values.len() ==> (#[trigger] values[r]).len() <= columns.len(),
    ensures
        objects.len() == values.len(),
        forall|r: int|
            0 <= r < values.len() ==> object_of(#[trigger] objects[r]) == Some(
                row_entries(columns@, values[r]@),
            ),
{
    let mut objects: Vec<Value> = Vec::new();
    let ghost rows = values@;
    for row in it: values
        invariant
            it.seq() == rows,
            objects.len() == it.index(),
            forall|r: int| 0 <= r < rows.len() ==> (#[trigger] rows[r]).len() <= columns.len(),
            forall|r: int|
                0 <= r < it.index() ==> object_of(#[trigger] objects[r]) == Some(
                    row_entries(columns@, rows[r]@),
                ),
    {
        assert(row == rows[it.index() as int]);
        objects.push(row_object(columns, row));
    }
    objects
}

} // verus!

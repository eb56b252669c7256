use vstd::prelude::*;

use crate::discord::literal;
use crate::erasure::{CommandView, ReplyView};
use crate::query::{ChangeView, ConditionView, FilterView, TestView, ValueView};
use crate::text::stands_in;

verus! {

/// A stored document: the values at each of its dotted paths, and the elements of the lists of
/// documents that it holds.
#[verifier::ext_equal]
pub struct Document {
    pub fields: Map<Seq<char>, Seq<ValueView>>,
    pub lists: Map<Seq<char>, Seq<Map<Seq<char>, Seq<char>>>>,
}

/// The documents of a collection, each under a key of its own.
pub type Collection = Map<int, Document>;

/// What is stored in each collection.
pub type Database = spec_fn(Seq<char>) -> Collection;

/// What the deletion of channel objects leaves of a collection: the channels that are gone,
/// the name of the collection, and what it held.
pub type Cleanup = spec_fn(Seq<Seq<char>>, Seq<char>, Collection) -> Collection;

/// The values that a document has at a path.
pub open spec fn values(document: Document, path: Seq<char>) -> Seq<ValueView> {
    if document.fields.contains_key(path) {
        document.fields[path]
    } else {
        Seq::empty()
    }
}

/// Whether a document has a text at a path.
pub open spec fn shows(document: Document, path: Seq<char>, text: Seq<char>) -> bool {
    values(document, path).contains(ValueView::Text(text))
}

/// Whether a document has one of some texts at a path.
pub open spec fn shows_one_of(document: Document, path: Seq<char>, list: Seq<Seq<char>>) -> bool {
    exists|text: Seq<char>| #[trigger] list.contains(text) && shows(document, path, text)
}

/// Whether an element of a list of documents reads as given in each of some fields.
pub open spec fn element_reads(
    element: Map<Seq<char>, Seq<char>>,
    fields: Seq<(Seq<char>, Seq<char>)>,
) -> bool {
    forall|i: int|
        0 <= i < fields.len() ==> element.contains_pair(
            (#[trigger] fields[i]).0,
            fields[i].1,
        )
}

/// Whether a document meets a condition.
pub open spec fn meets(document: Document, condition: ConditionView) -> bool {
    match condition.test {
        TestView::Equals(value) => values(document, condition.path).contains(value),
        TestView::OneOf(list) => shows_one_of(document, condition.path, list),
        TestView::Differs(value) => !values(document, condition.path).contains(value),
        TestView::Absent => !document.fields.contains_key(condition.path),
        TestView::HasAll(list) => forall|text: Seq<char>| #[trigger]
            list.contains(text) ==> shows(document, condition.path, text),
        TestView::HasElement(fields) => {
            &&& document.lists.contains_key(condition.path)
            &&& exists|i: int|
                0 <= i < document.lists[condition.path].len() && element_reads(
                    #[trigger] document.lists[condition.path][i],
                    fields,
                )
        },
        // Only expressions that match a text literally are ever asked for.
        TestView::Matches(pattern) => literal(pattern) matches Some(needle) && exists|
            text: Seq<char>,
        | #[trigger]
            shows(document, condition.path, text) && stands_in(text, needle),
    }
}

/// Whether a document meets every condition of a list.
pub open spec fn meets_all(document: Document, list: Seq<ConditionView>) -> bool {
    forall|i: int| 0 <= i < list.len() ==> meets(document, #[trigger] list[i])
}

/// Whether a filter picks a document.
pub open spec fn picks(filter: FilterView, document: Document) -> bool {
    &&& meets_all(document, filter.all)
    &&& filter.any.len() == 0 || exists|g: int|
        0 <= g < filter.any.len() && meets_all(document, #[trigger] filter.any[g])
}

/// An element of a list of documents.
pub type Element = Map<Seq<char>, Seq<char>>;

/// The elements that do not have an id.
pub open spec fn apart_from(id: Seq<char>) -> spec_fn(Element) -> bool {
    |element: Element| !element.contains_pair("_id"@, id)
}

/// The list of documents that a document has at a path, none if there is none.
pub open spec fn list_at(document: Document, path: Seq<char>) -> Seq<Element> {
    if document.lists.contains_key(path) {
        document.lists[path]
    } else {
        Seq::empty()
    }
}

/// A document with a list of documents at a path.
pub open spec fn with_list(document: Document, path: Seq<char>, list: Seq<Element>) -> Document {
    Document { lists: document.lists.insert(path, list), ..document }
}

/// A document after a change.
pub open spec fn changed(document: Document, change: ChangeView) -> Document {
    match change {
        ChangeView::Write { path, value } => Document {
            fields: document.fields.insert(path, seq![value]),
            ..document
        },
        ChangeView::Remove { path } => Document {
            fields: document.fields.remove(path),
            ..document
        },
        ChangeView::Pull { path, item } => if document.fields.contains_key(path) {
            Document {
                fields: document.fields.insert(
                    path,
                    document.fields[path].filter(|value: ValueView| value != ValueView::Text(item)),
                ),
                ..document
            }
        } else {
            document
        },
        ChangeView::PullElement { path, id } => if document.lists.contains_key(path) {
            Document {
                lists: document.lists.insert(
                    path,
                    document.lists[path].filter(apart_from(id)),
                ),
                ..document
            }
        } else {
            document
        },
    }
}

/// The keys of the documents that a filter picks.
pub open spec fn picked(collection: Collection, filter: FilterView) -> Set<int> {
    Set::new(|key: int| collection.contains_key(key) && picks(filter, collection[key]))
}

/// The keys of the documents that a filter picks and a change alters.
pub open spec fn altered(
    collection: Collection,
    filter: FilterView,
    change: ChangeView,
) -> Set<int> {
    Set::new(
        |key: int|
            collection.contains_key(key) && picks(filter, collection[key]) && changed(
                collection[key],
                change,
            ) != collection[key],
    )
}

/// A collection without the documents that a filter picks.
pub open spec fn without(collection: Collection, filter: FilterView) -> Collection {
    Map::new(
        |key: int| collection.contains_key(key) && !picks(filter, collection[key]),
        |key: int| collection[key],
    )
}

/// A collection in which a change was made to the documents that a filter picks.
pub open spec fn with_changed(
    collection: Collection,
    filter: FilterView,
    change: ChangeView,
) -> Collection {
    Map::new(
        |key: int| collection.contains_key(key),
        |key: int|
            if picks(filter, collection[key]) {
                changed(collection[key], change)
            } else {
                collection[key]
            },
    )
}

/// A collection without one of the documents that a filter picks.
pub open spec fn without_one(collection: Collection, filter: FilterView) -> Collection {
    if exists|key: int| picked(collection, filter).contains(key) {
        collection.remove(choose|key: int| picked(collection, filter).contains(key))
    } else {
        collection
    }
}

/// A database in which one collection was replaced.
pub open spec fn replaced(database: Database, name: Seq<char>, collection: Collection) -> Database {
    |other: Seq<char>|
        if other == name {
            collection
        } else {
            database(other)
        }
}

/// The mark that the file janitor looks for.
pub open spec fn deletion_mark() -> ChangeView {
    ChangeView::Write { path: "deleted"@, value: ValueView::Flag(true) }
}

/// A database after a command.
pub open spec fn executed(database: Database, command: CommandView, cleanup: Cleanup) -> Database {
    match command {
        CommandView::ListIds { .. } => database,
        CommandView::Count { .. } => database,
        CommandView::DeleteMany { collection, filter } => replaced(
            database,
            collection,
            without(database(collection), filter),
        ),
        CommandView::DeleteOne { collection, filter } => replaced(
            database,
            collection,
            without_one(database(collection), filter),
        ),
        CommandView::UpdateMany { collection, filter, change } => replaced(
            database,
            collection,
            with_changed(database(collection), filter, change),
        ),
        CommandView::MarkAttachments { filter } => replaced(
            database,
            "attachments"@,
            with_changed(database("attachments"@), filter, deletion_mark()),
        ),
        CommandView::DeleteChannelObjects { channels } => |name: Seq<char>|
            cleanup(channels, name, database(name)),
    }
}

/// Whether `ids` are exactly the ids of the documents that a filter picks.
pub open spec fn lists_ids(
    collection: Collection,
    filter: FilterView,
    ids: Seq<Seq<char>>,
) -> bool {
    forall|id: Seq<char>| #[trigger]
        ids.contains(id) <==> exists|key: int| #[trigger]
            picked(collection, filter).contains(key) && shows(collection[key], "_id"@, id)
}

/// Whether a reply tells the truth about a command on a database.
pub open spec fn answers(database: Database, command: CommandView, reply: ReplyView) -> bool {
    match command {
        CommandView::ListIds { collection, filter } => reply is Ids && lists_ids(
            database(collection),
            filter,
            reply->Ids_0,
        ),
        CommandView::Count { collection, filter } => reply == ReplyView::Number(
            picked(database(collection), filter).len() as int,
        ),
        CommandView::DeleteMany { collection, filter } => reply == ReplyView::Number(
            picked(database(collection), filter).len() as int,
        ),
        CommandView::UpdateMany { collection, filter, change } => reply == ReplyView::Number(
            altered(database(collection), filter, change).len() as int,
        ),
        _ => true,
    }
}

} // verus!

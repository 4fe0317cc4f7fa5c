//! How an entity's observations are stored: as one text, a JSON array of
//! strings, which `serde_json` writes and reads.

use vstd::prelude::*;
use crate::error::{naming, StoreError, StoreErrorView};
use crate::graph::{
    entity_views, relation_views, texts, Entity, EntityView, Relation, RelationView,
};

verus! {

/// `serde_json::Error`.
#[verifier::external_type_specification]
#[verifier::external_body]
pub struct ExJsonError(serde_json::Error);

/// What `serde_json::to_string` returns for a list of strings: the JSON
/// text, or `None` where it fails.
pub uninterp spec fn json_text(items: Seq<Seq<char>>) -> Option<Seq<char>>;

/// What `serde_json::from_str` returns for a text read as a list of
/// strings: the list, or `None` where the text is not a JSON array of
/// strings.
pub uninterp spec fn json_items(text: Seq<char>) -> Option<Seq<Seq<char>>>;

/// `serde_json::to_string` on a list of strings. The result depends on
/// the list alone.
#[verifier::external_body]
fn to_json(items: &Vec<String>) -> (outcome: Result<String, serde_json::Error>)
    ensures
        match outcome {
            Ok(text) => json_text(texts(items@)) == Some(text@),
            Err(_) => json_text(texts(items@)) is None,
        },
{
    serde_json::to_string(items)
}

/// `serde_json::from_str` for a list of strings. The result depends on the
/// text alone.
#[verifier::external_body]
fn from_json(text: &str) -> (outcome: Result<Vec<String>, serde_json::Error>)
    ensures
        match outcome {
            Ok(items) => json_items(text@) == Some(texts(items@)),
            Err(_) => json_items(text@) is None,
        },
{
    serde_json::from_str(text)
}

/// The message for observations that cannot be written as JSON.
pub open spec fn unwritable_message(entity: Seq<char>) -> Seq<char> {
    "Failed to serialize observations for entity '"@ + entity + "'"@
}

/// The message for stored observations that cannot be read back.
pub open spec fn corruption_message(entity: Seq<char>) -> Seq<char> {
    "Corrupted observations data for entity '"@ + entity + "'"@
}

/// Whether an error says that the stored observations of some entity
/// cannot be read back, and names the entity.
pub open spec fn is_corruption(error: StoreErrorView) -> bool {
    exists|entity: Seq<char>|
        error == StoreErrorView::Corruption(#[trigger] corruption_message(entity))
}

/// Writes the observations of the named entity as the text to store. A
/// list that cannot be written is an internal fault.
pub fn encode_observations(entity: &str, observations: &Vec<String>) -> (outcome: Result<
    String,
    StoreError,
>)
    ensures
        match json_text(texts(observations@)) {
            Some(text) => outcome matches Ok(stored) && stored@ == text,
            None => outcome matches Err(e) && e@ == StoreErrorView::Internal(
                unwritable_message(entity@),
            ),
        },
{
    match to_json(observations) {
        Ok(text) => Ok(text),
        Err(_) => Err(
            StoreError::Internal(
                naming("Failed to serialize observations for entity '", entity),
            ),
        ),
    }
}

/// Reads the stored text of the named entity back into its observations.
/// A text that cannot be read is reported, never cut short.
pub fn decode_observations(entity: &str, stored: &str) -> (outcome: Result<
    Vec<String>,
    StoreError,
>)
    ensures
        match json_items(stored@) {
            Some(items) => outcome matches Ok(observations) && texts(observations@) == items,
            None => outcome matches Err(e) && e@ == StoreErrorView::Corruption(
                corruption_message(entity@),
            ),
        },
{
    match from_json(stored) {
        Ok(items) => Ok(items),
        Err(_) => Err(
            StoreError::Corruption(naming("Corrupted observations data for entity '", entity)),
        ),
    }
}

/// A row of three texts as a plain value.
pub open spec fn row_view(row: (String, String, String)) -> (Seq<char>, Seq<char>, Seq<char>) {
    (row.0@, row.1@, row.2@)
}

/// The views of a list of rows.
pub open spec fn row_views(rows: Seq<(String, String, String)>) -> Seq<
    (Seq<char>, Seq<char>, Seq<char>),
> {
    Seq::new(rows.len(), |i: int| row_view(rows[i]))
}

/// The entity that a row of the entities table holds: name, type, and the
/// observations read from the stored text; `None` where that text cannot
/// be read.
pub open spec fn row_entity(row: (Seq<char>, Seq<char>, Seq<char>)) -> Option<EntityView> {
    match json_items(row.2) {
        Some(observations) => Some(
            EntityView { name: row.0, entity_type: row.1, observations },
        ),
        None => None,
    }
}

/// The relation that a row of the relations table holds: source, target
/// and type.
pub open spec fn row_relation(row: (Seq<char>, Seq<char>, Seq<char>)) -> RelationView {
    RelationView { from: row.0, to: row.1, relation_type: row.2 }
}

/// What reading a list of entity rows gives: every entity in order, or the
/// corruption error of the first row that cannot be read.
pub open spec fn rows_entities(rows: Seq<(Seq<char>, Seq<char>, Seq<char>)>) -> Result<
    Seq<EntityView>,
    StoreErrorView,
>
    decreases rows.len(),
{
    if rows.len() == 0 {
        Ok(Seq::empty())
    } else {
        match rows_entities(rows.drop_last()) {
            Err(e) => Err(e),
            Ok(entities) => match row_entity(rows.last()) {
                Some(entity) => Ok(entities.push(entity)),
                None => Err(StoreErrorView::Corruption(corruption_message(rows.last().0))),
            },
        }
    }
}

/// Whether a list of entities is what some rows of the entities table are
/// read as: each entity has the name and the type of its row, and as
/// observations the list that the stored text of its row holds.
pub open spec fn read_from_rows(entities: Seq<EntityView>) -> bool {
    exists|rows: Seq<(Seq<char>, Seq<char>, Seq<char>)>| #[trigger]
        rows_entities(rows) == Ok::<Seq<EntityView>, StoreErrorView>(entities)
}

/// Rows are read into entities exactly when each of them can be read; the
/// entities then stand in the order of their rows.
pub proof fn lemma_readable_rows(rows: Seq<(Seq<char>, Seq<char>, Seq<char>)>)
    ensures
        rows_entities(rows) is Ok <==> forall|i: int|
            0 <= i < rows.len() ==> row_entity(#[trigger] rows[i]) is Some,
        rows_entities(rows) matches Ok(entities) ==> entities.len() == rows.len() && forall|
            i: int,
        |
            0 <= i < rows.len() ==> row_entity(rows[i]) == Some(#[trigger] entities[i]),
    decreases rows.len(),
{
    if rows.len() > 0 {
        let rest = rows.drop_last();
        lemma_readable_rows(rest);
        // Each row but the last is a row of the rest.
        assert forall|i: int| 0 <= i < rest.len() implies rest[i] == rows[i] by {}
    }
}

/// Whether a list of observations is what some stored text holds.
pub open spec fn is_stored_list(observations: Seq<Seq<char>>) -> bool {
    exists|text: Seq<char>| #[trigger] json_items(text) == Some(observations)
}

/// Entities are read from rows exactly when the observations of each are
/// what some stored text holds.
pub proof fn lemma_read_from_rows(entities: Seq<EntityView>)
    ensures
        read_from_rows(entities) <==> forall|i: int|
            0 <= i < entities.len() ==> is_stored_list((#[trigger] entities[i]).observations),
{
    if read_from_rows(entities) {
        let rows = choose|rows: Seq<(Seq<char>, Seq<char>, Seq<char>)>| #[trigger]
            rows_entities(rows) == Ok::<Seq<EntityView>, StoreErrorView>(entities);
        lemma_readable_rows(rows);
        assert forall|i: int| 0 <= i < entities.len() implies is_stored_list(
            (#[trigger] entities[i]).observations,
        ) by {
            assert(row_entity(rows[i]) == Some(entities[i]));
            assert(json_items(rows[i].2) == Some(entities[i].observations));
        }
    }
    if forall|i: int|
        0 <= i < entities.len() ==> is_stored_list((#[trigger] entities[i]).observations) {
        let rows = Seq::new(
            entities.len(),
            |i: int|
                (
                    entities[i].name,
                    entities[i].entity_type,
                    choose|text: Seq<char>| #[trigger]
                        json_items(text) == Some(entities[i].observations),
                ),
        );
        assert forall|i: int| 0 <= i < rows.len() implies row_entity(#[trigger] rows[i]) == Some(
            entities[i],
        ) by {
            assert(is_stored_list(entities[i].observations));
        }
        lemma_readable_rows(rows);
        assert(rows_entities(rows)->Ok_0 =~= entities);
    }
}

/// Where a row cannot be read, the error names the entity of the first
/// such row.
pub proof fn lemma_first_unreadable_row(rows: Seq<(Seq<char>, Seq<char>, Seq<char>)>, i: int)
    requires
        0 <= i < rows.len(),
        row_entity(rows[i]) is None,
        forall|k: int| 0 <= k < i ==> row_entity(#[trigger] rows[k]) is Some,
    ensures
        rows_entities(rows) == Err::<Seq<EntityView>, StoreErrorView>(
            StoreErrorView::Corruption(corruption_message(rows[i].0)),
        ),
{
    assert(rows.take(i + 1).drop_last() == rows.take(i));
    lemma_readable_rows(rows.take(i));
    lemma_rows_entities_fails(rows, i + 1);
}

/// Reads the rows of the entities table into entities.
pub fn entities_from_rows(rows: &Vec<(String, String, String)>) -> (outcome: Result<
    Vec<Entity>,
    StoreError,
>)
    ensures
        match rows_entities(row_views(rows@)) {
            Ok(entities) => outcome matches Ok(read) && entity_views(read@) == entities,
            Err(error) => outcome matches Err(e) && e@ == error,
        },
        match outcome {
            Ok(read) => read_from_rows(entity_views(read@)),
            Err(e) => is_corruption(e@),
        },
{
    let mut entities: Vec<Entity> = Vec::new();
    let mut i: usize = 0;
    assert(entity_views(entities@) == Seq::<EntityView>::empty());
    while i < rows.len()
        invariant
            i <= rows.len(),
            rows_entities(row_views(rows@).take(i as int)) == Ok::<
                Seq<EntityView>,
                StoreErrorView,
            >(entity_views(entities@)),
        decreases rows.len() - i,
    {
        let row = &rows[i];
        let ghost before = entity_views(entities@);
        proof {
            assert(row_views(rows@).take(i + 1).drop_last() == row_views(rows@).take(i as int));
        }
        match decode_observations(row.0.as_str(), row.2.as_str()) {
            Ok(observations) => {
                entities.push(
                    Entity { name: row.0.clone(), entity_type: row.1.clone(), observations },
                );
                assert(entity_views(entities@) == before.push(row_entity(row_view(*row))->0));
            },
            Err(e) => {
                proof {
                    lemma_rows_entities_fails(row_views(rows@), i + 1);
                }
                return Err(e);
            },
        }
        i += 1;
    }
    assert(row_views(rows@).take(rows@.len() as int) == row_views(rows@));
    Ok(entities)
}

/// Once a prefix of the rows cannot be read, the whole list fails with the
/// same error.
proof fn lemma_rows_entities_fails(rows: Seq<(Seq<char>, Seq<char>, Seq<char>)>, n: int)
    requires
        0 <= n <= rows.len(),
        rows_entities(rows.take(n)) is Err,
    ensures
        rows_entities(rows) == rows_entities(rows.take(n)),
    decreases rows.len() - n,
{
    if n < rows.len() {
        assert(rows.take(n + 1).drop_last() == rows.take(n));
        lemma_rows_entities_fails(rows, n + 1);
    } else {
        assert(rows.take(n) == rows);
    }
}

/// Reads the rows of the relations table into relations.
pub fn relations_from_rows(rows: &Vec<(String, String, String)>) -> (relations: Vec<Relation>)
    ensures
        relation_views(relations@) == Seq::new(
            rows@.len(),
            |i: int| row_relation(row_view(rows@[i])),
        ),
{
    let mut relations: Vec<Relation> = Vec::new();
    let mut i: usize = 0;
    while i < rows.len()
        invariant
            i <= rows.len(),
            relations@.len() == i,
            forall|k: int| 0 <= k < i ==> relations@[k]@ == row_relation(row_view(rows@[k])),
        decreases rows.len() - i,
    {
        let row = &rows[i];
        relations.push(
            Relation { from: row.0.clone(), to: row.1.clone(), relation_type: row.2.clone() },
        );
        i += 1;
    }
    assert(relation_views(relations@) =~= Seq::new(
        rows@.len(),
        |i: int| row_relation(row_view(rows@[i])),
    ));
    relations
}

} // verus!

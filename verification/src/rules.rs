//! What the store decides from what the engine reports: which error a
//! failed statement becomes, what is written back when observations are
//! added or removed, which names a query is asked about.

use vstd::prelude::*;
use crate::codec::{
    corruption_message, decode_observations, encode_observations, json_items, json_text,
    unwritable_message,
};
use crate::error::{describe, with_cause, StoreError, StoreErrorView};
use crate::graph::{
    entity_views, relation_views, texts, Entity, EntityView, Relation, RelationView,
};
use crate::observations::{
    add_new_observations, each_once, holds, merged, newly_added, remove_observations, without,
    without_repeats,
};
use crate::sqlite::Failure;
use crate::validation::reports;

verus! {

/// What is wrong with the extension of a database path, if anything: the
/// file must be named `*.db`.
pub open spec fn extension_problem(extension: Option<Seq<char>>) -> Option<Seq<char>> {
    match extension {
        None => Some("Database path must have .db extension"@),
        Some(text) => if text == "db"@ {
            None
        } else {
            Some("Invalid database file extension (must be .db)"@)
        },
    }
}

/// Checks the extension of a database path.
pub fn check_db_extension(extension: Option<String>) -> (outcome: Result<(), StoreError>)
    ensures
        reports(
            outcome,
            extension_problem(
                match extension {
                    Some(text) => Some(text@),
                    None => None,
                },
            ),
        ),
{
    match extension {
        None => Err(
            StoreError::Validation(String::from_str("Database path must have .db extension")),
        ),
        Some(text) => {
            if text == String::from_str("db") {
                Ok(())
            } else {
                Err(
                    StoreError::Validation(
                        String::from_str("Invalid database file extension (must be .db)"),
                    ),
                )
            }
        },
    }
}

/// `'from' -> 'to'`, as a relation is named in messages.
pub open spec fn endpoints(relation: RelationView) -> Seq<char> {
    "'"@ + relation.from + "' -> '"@ + relation.to + "'"@
}

/// `'from' -> 'to' (type: 'relation_type')`.
pub open spec fn endpoints_and_type(relation: RelationView) -> Seq<char> {
    endpoints(relation) + " (type: '"@ + relation.relation_type + "')"@
}

/// The message for a relation whose source or target is not in the store.
pub open spec fn referential_message(relation: RelationView) -> Seq<char> {
    "Cannot create relation "@ + endpoints_and_type(relation)
        + ": one or both entities do not exist"@
}

/// The error that a failed insertion of a relation becomes. A broken
/// constraint means that an endpoint is missing: a triple that is already
/// stored is skipped by the statement itself and never fails.
pub open spec fn relation_failure(relation: RelationView, failure: Failure, cause: Seq<char>)
    -> StoreErrorView {
    match failure {
        Failure::Constraint => StoreErrorView::Referential(referential_message(relation)),
        Failure::Engine => StoreErrorView::Internal(
            with_cause("Database error creating relation "@ + endpoints(relation), cause),
        ),
        Failure::Other => StoreErrorView::Internal(
            with_cause("Failed to insert relation "@ + endpoints_and_type(relation), cause),
        ),
    }
}

fn endpoints_text(prefix: &str, relation: &Relation) -> (text: String)
    ensures
        text@ == prefix@ + endpoints(relation@),
{
    let mut text = String::from_str(prefix);
    text.append("'");
    text.append(relation.from.as_str());
    text.append("' -> '");
    text.append(relation.to.as_str());
    text.append("'");
    text
}

fn endpoints_and_type_text(prefix: &str, relation: &Relation) -> (text: String)
    ensures
        text@ == prefix@ + endpoints_and_type(relation@),
{
    let mut text = endpoints_text(prefix, relation);
    text.append(" (type: '");
    text.append(relation.relation_type.as_str());
    text.append("')");
    assert(text@ == prefix@ + (endpoints(relation@) + " (type: '"@ + relation.relation_type@
        + "')"@));
    text
}

/// Turns a failed insertion of a relation into the store's error.
pub fn relation_insert_error(relation: &Relation, failure: Failure, cause: &str) -> (error:
    StoreError)
    ensures
        error@ == relation_failure(relation@, failure, cause@),
{
    match failure {
        Failure::Constraint => {
            let mut message = endpoints_and_type_text("Cannot create relation ", relation);
            message.append(": one or both entities do not exist");
            StoreError::Referential(message)
        },
        Failure::Engine => {
            let context = endpoints_text("Database error creating relation ", relation);
            StoreError::Internal(describe(context.as_str(), cause))
        },
        Failure::Other => {
            let context = endpoints_and_type_text("Failed to insert relation ", relation);
            StoreError::Internal(describe(context.as_str(), cause))
        },
    }
}

/// The text stored for the observations of a new entity: the list with
/// each observation once, written as JSON; `None` where it cannot be
/// written.
pub open spec fn creation_text(entity: EntityView) -> Option<Seq<char>> {
    json_text(each_once(entity.observations))
}

/// Writes the observations of a new entity as the text to store. An
/// observation given more than once is stored once, at its first place.
pub fn encode_new_entity(entity: &Entity) -> (outcome: Result<String, StoreError>)
    ensures
        match creation_text(entity@) {
            Some(text) => outcome matches Ok(stored) && stored@ == text,
            None => outcome matches Err(e) && e@ == StoreErrorView::Internal(
                unwritable_message(entity@.name),
            ),
        },
{
    let observations = without_repeats(&entity.observations);
    encode_observations(entity.name.as_str(), &observations)
}

/// The message for an entity that is not in the store; `action` is `add`
/// or `delete`.
pub open spec fn missing_message(action: Seq<char>, entity: Seq<char>) -> Seq<char> {
    "Cannot "@ + action + " observations: entity '"@ + entity + "' does not exist"@
}

fn missing_entity(action: &str, entity: &str) -> (error: StoreError)
    ensures
        error@ == StoreErrorView::NotFound(missing_message(action@, entity@)),
{
    let mut message = String::from_str("Cannot ");
    message.append(action);
    message.append(" observations: entity '");
    message.append(entity);
    message.append("' does not exist");
    StoreError::NotFound(message)
}

/// What adding observations to an entity comes to.
#[derive(Debug)]
pub struct Addition {
    /// The observations that were not stored yet, in the order given.
    pub added: Vec<String>,
    /// The text to store for the entity from now on; `None` where nothing
    /// was added and the stored text stays as it is.
    pub update: Option<String>,
}

/// An addition as a plain value.
pub struct AdditionView {
    pub added: Seq<Seq<char>>,
    pub update: Option<Seq<char>>,
}

impl View for Addition {
    type V = AdditionView;

    open spec fn view(&self) -> AdditionView {
        AdditionView {
            added: texts(self.added@),
            update: match self.update {
                Some(text) => Some(text@),
                None => None,
            },
        }
    }
}

/// What adding `contents` to the named entity comes to, given the text
/// that the store holds for it (`None`: the entity is not there).
pub open spec fn addition_outcome(
    entity: Seq<char>,
    stored: Option<Seq<char>>,
    contents: Seq<Seq<char>>,
) -> Result<AdditionView, StoreErrorView> {
    match stored {
        None => Err(StoreErrorView::NotFound(missing_message("add"@, entity))),
        Some(text) => match json_items(text) {
            None => Err(StoreErrorView::Corruption(corruption_message(entity))),
            Some(held) => {
                let added = newly_added(held, contents);
                if added.len() == 0 {
                    Ok(AdditionView { added, update: None })
                } else {
                    match json_text(merged(held, contents)) {
                        Some(update) => Ok(AdditionView { added, update: Some(update) }),
                        None => Err(StoreErrorView::Internal(unwritable_message(entity))),
                    }
                }
            },
        },
    }
}

/// Decides what adding `contents` to the named entity comes to, given the
/// text that the store holds for it.
pub fn plan_addition(entity: &str, stored: Option<String>, contents: &Vec<String>) -> (outcome:
    Result<Addition, StoreError>)
    ensures
        match addition_outcome(
            entity@,
            match stored {
                Some(text) => Some(text@),
                None => None,
            },
            texts(contents@),
        ) {
            Ok(addition) => outcome matches Ok(planned) && planned@ == addition,
            Err(error) => outcome matches Err(e) && e@ == error,
        },
{
    let text = match stored {
        Some(text) => text,
        None => {
            return Err(missing_entity("add", entity));
        },
    };
    let mut observations = decode_observations(entity, text.as_str())?;
    let added = add_new_observations(&mut observations, contents);
    if added.len() == 0 {
        return Ok(Addition { added, update: None });
    }
    let update = encode_observations(entity, &observations)?;
    Ok(Addition { added, update: Some(update) })
}

/// The text to store for the named entity once `removed` are taken out of
/// its observations, given the text that the store holds for it.
pub open spec fn removal_outcome(
    entity: Seq<char>,
    stored: Option<Seq<char>>,
    removed: Seq<Seq<char>>,
) -> Result<Seq<char>, StoreErrorView> {
    match stored {
        None => Err(StoreErrorView::NotFound(missing_message("delete"@, entity))),
        Some(text) => match json_items(text) {
            None => Err(StoreErrorView::Corruption(corruption_message(entity))),
            Some(held) => match json_text(without(held, removed)) {
                Some(update) => Ok(update),
                None => Err(StoreErrorView::Internal(unwritable_message(entity))),
            },
        },
    }
}

/// Decides what to store for the named entity once `removed` are taken out
/// of its observations.
pub fn plan_removal(entity: &str, stored: Option<String>, removed: &Vec<String>) -> (outcome:
    Result<String, StoreError>)
    ensures
        match removal_outcome(
            entity@,
            match stored {
                Some(text) => Some(text@),
                None => None,
            },
            texts(removed@),
        ) {
            Ok(update) => outcome matches Ok(text) && text@ == update,
            Err(error) => outcome matches Err(e) && e@ == error,
        },
{
    let text = match stored {
        Some(text) => text,
        None => {
            return Err(missing_entity("delete", entity));
        },
    };
    let observations = decode_observations(entity, text.as_str())?;
    let kept = remove_observations(&observations, removed);
    encode_observations(entity, &kept)
}

/// Adding observations that the entity holds already adds nothing and
/// writes nothing.
pub proof fn lemma_known_observations_add_nothing(
    entity: Seq<char>,
    stored: Seq<char>,
    contents: Seq<Seq<char>>,
)
    requires
        json_items(stored) matches Some(held) && forall|i: int|
            0 <= i < contents.len() ==> held.contains(contents[i]),
    ensures
        addition_outcome(entity, Some(stored), contents) == Ok::<AdditionView, StoreErrorView>(
            AdditionView { added: Seq::empty(), update: None },
        ),
{
    crate::observations::lemma_adding_known_observations(json_items(stored)->0, contents);
}

/// The names of a list, each once, in the order of their first occurrence.
pub open spec fn distinct(names: Seq<Seq<char>>) -> Seq<Seq<char>>
    decreases names.len(),
{
    if names.len() == 0 {
        Seq::empty()
    } else {
        let before = distinct(names.drop_last());
        if before.contains(names.last()) {
            before
        } else {
            before.push(names.last())
        }
    }
}

/// The names of a list of entities.
pub open spec fn names_of(entities: Seq<EntityView>) -> Seq<Seq<char>> {
    Seq::new(entities.len(), |i: int| entities[i].name)
}

/// The distinct names hold no name twice, and hold exactly the names of
/// the list.
pub proof fn lemma_distinct(names: Seq<Seq<char>>)
    ensures
        distinct(names).no_duplicates(),
        distinct(names).len() <= names.len(),
        forall|name: Seq<char>| #[trigger] distinct(names).contains(name) <==> names.contains(name),
    decreases names.len(),
{
    if names.len() > 0 {
        let rest = names.drop_last();
        let before = distinct(rest);
        let last = names.last();
        lemma_distinct(rest);
        assert forall|name: Seq<char>| #[trigger]
            distinct(names).contains(name) <==> names.contains(name) by {
            if distinct(names).contains(name) {
                let k = choose|k: int| 0 <= k < distinct(names).len() && distinct(names)[k] == name;
                if k < before.len() {
                    assert(before[k] == name);
                    assert(before.contains(name));
                    let j = choose|j: int| 0 <= j < rest.len() && rest[j] == name;
                    assert(names[j] == name);
                } else {
                    assert(names[names.len() - 1] == name);
                }
            }
            if names.contains(name) {
                let j = choose|j: int| 0 <= j < names.len() && names[j] == name;
                if j < rest.len() {
                    assert(rest[j] == name);
                    assert(before.contains(name));
                    let k = choose|k: int| 0 <= k < before.len() && before[k] == name;
                    assert(distinct(names)[k] == name);
                } else if before.contains(last) {
                    let k = choose|k: int| 0 <= k < before.len() && before[k] == last;
                    assert(distinct(names)[k] == name);
                } else {
                    assert(distinct(names)[before.len() as int] == name);
                }
            }
        }
    }
}

/// The names of the given entities, each once.
pub fn distinct_names(entities: &Vec<Entity>) -> (names: Vec<String>)
    ensures
        texts(names@) == distinct(names_of(entity_views(entities@))),
        names@.len() <= entities@.len(),
{
    let mut names: Vec<String> = Vec::new();
    let ghost all = names_of(entity_views(entities@));
    let mut i: usize = 0;
    while i < entities.len()
        invariant
            i <= entities.len(),
            all == names_of(entity_views(entities@)),
            texts(names@) == distinct(all.take(i as int)),
            names@.len() <= i,
        decreases entities.len() - i,
    {
        let name = &entities[i].name;
        proof {
            assert(all.take(i + 1).drop_last() == all.take(i as int));
        }
        if !holds(&names, name) {
            names.push(name.clone());
        }
        i += 1;
    }
    assert(all.take(entities@.len() as int) == all);
    names
}

/// The items that the engine inserted: `changed[i]` is the number of rows
/// that the insertion of `items[i]` changed, which is zero where the item
/// was stored already and the statement left it alone.
pub open spec fn inserted<T>(items: Seq<T>, changed: Seq<usize>) -> Seq<T>
    decreases items.len(),
{
    if items.len() == 0 || changed.len() != items.len() {
        Seq::empty()
    } else {
        let before = inserted(items.drop_last(), changed.drop_last());
        if changed.last() > 0 {
            before.push(items.last())
        } else {
            before
        }
    }
}

/// The inserted items are items of the batch, in its order, each at most
/// once: `inserted` picks them at rising positions.
pub proof fn lemma_inserted_is_selection<T>(items: Seq<T>, changed: Seq<usize>) -> (picks: Seq<
    int,
>)
    requires
        changed.len() == items.len(),
    ensures
        picks.len() == inserted(items, changed).len(),
        picks.len() <= items.len(),
        forall|j: int|
            0 <= j < picks.len() ==> 0 <= #[trigger] picks[j] < items.len() && changed[picks[j]]
                > 0 && inserted(items, changed)[j] == items[picks[j]],
        forall|j: int, k: int| 0 <= j < k < picks.len() ==> picks[j] < picks[k],
        forall|i: int|
            0 <= i < items.len() && changed[i] > 0 ==> exists|j: int|
                0 <= j < picks.len() && picks[j] == i,
    decreases items.len(),
{
    if items.len() == 0 {
        Seq::empty()
    } else {
        let before = lemma_inserted_is_selection(items.drop_last(), changed.drop_last());
        let last = items.len() - 1;
        let picks = if changed.last() > 0 {
            before.push(last)
        } else {
            before
        };
        assert forall|i: int| 0 <= i < items.len() && changed[i] > 0 implies exists|j: int|
            0 <= j < picks.len() && picks[j] == i by {
            if i < last {
                assert(changed.drop_last()[i] > 0);
                let j = choose|j: int| 0 <= j < before.len() && before[j] == i;
                assert(picks[j] == i);
            } else {
                assert(picks[picks.len() - 1] == i);
            }
        }
        picks
    }
}

/// Where the engine changed no row, because every item was stored already,
/// nothing counts as inserted: creating the same items again creates none.
pub proof fn lemma_nothing_changed_nothing_inserted<T>(items: Seq<T>, changed: Seq<usize>)
    requires
        changed.len() == items.len(),
        forall|i: int| 0 <= i < changed.len() ==> changed[i] == 0,
    ensures
        inserted(items, changed) == Seq::<T>::empty(),
    decreases items.len(),
{
    if items.len() > 0 {
        lemma_nothing_changed_nothing_inserted(items.drop_last(), changed.drop_last());
    }
}

/// Where the engine changed a row for every item, because none was stored
/// yet, the whole batch counts as inserted.
pub proof fn lemma_all_changed_all_inserted<T>(items: Seq<T>, changed: Seq<usize>)
    requires
        changed.len() == items.len(),
        forall|i: int| 0 <= i < changed.len() ==> changed[i] > 0,
    ensures
        inserted(items, changed) == items,
    decreases items.len(),
{
    if items.len() > 0 {
        lemma_all_changed_all_inserted(items.drop_last(), changed.drop_last());
    }
}

/// The entities of a batch that the engine inserted, given the number of
/// rows that each insertion changed.
pub fn inserted_entities(entities: &[Entity], changed: &Vec<usize>) -> (created: Vec<Entity>)
    requires
        changed@.len() == entities@.len(),
    ensures
        entity_views(created@) == inserted(entity_views(entities@), changed@),
{
    let mut created: Vec<Entity> = Vec::new();
    let ghost all = entity_views(entities@);
    let mut i: usize = 0;
    while i < entities.len()
        invariant
            i <= entities.len(),
            changed@.len() == entities@.len(),
            all == entity_views(entities@),
            entity_views(created@) == inserted(all.take(i as int), changed@.take(i as int)),
        decreases entities.len() - i,
    {
        proof {
            assert(all.take(i + 1).drop_last() == all.take(i as int));
            assert(changed@.take(i + 1).drop_last() == changed@.take(i as int));
        }
        if changed[i] > 0 {
            created.push(entities[i].clone());
        }
        i += 1;
    }
    assert(all.take(entities@.len() as int) == all);
    assert(changed@.take(changed@.len() as int) == changed@);
    created
}

/// The relations of a batch that the engine inserted, given the number of
/// rows that each insertion changed.
pub fn inserted_relations(relations: &[Relation], changed: &Vec<usize>) -> (created: Vec<
    Relation,
>)
    requires
        changed@.len() == relations@.len(),
    ensures
        relation_views(created@) == inserted(relation_views(relations@), changed@),
{
    let mut created: Vec<Relation> = Vec::new();
    let ghost all = relation_views(relations@);
    let mut i: usize = 0;
    while i < relations.len()
        invariant
            i <= relations.len(),
            changed@.len() == relations@.len(),
            all == relation_views(relations@),
            relation_views(created@) == inserted(all.take(i as int), changed@.take(i as int)),
        decreases relations.len() - i,
    {
        proof {
            assert(all.take(i + 1).drop_last() == all.take(i as int));
            assert(changed@.take(i + 1).drop_last() == changed@.take(i as int));
        }
        if changed[i] > 0 {
            created.push(relations[i].clone());
        }
        i += 1;
    }
    assert(all.take(relations@.len() as int) == all);
    assert(changed@.take(changed@.len() as int) == changed@);
    created
}

/// Whether a result is a batch without the items that were stored
/// already, whatever the engine found stored.
pub open spec fn is_inserted_part<T>(created: Seq<T>, items: Seq<T>) -> bool {
    exists|changed: Seq<usize>|
        changed.len() == items.len() && created == #[trigger] inserted(items, changed)
}

/// The rows that the statements of a batch changed, all together:
/// `changed[i]` is the number that statement `i` changed, which is zero
/// where it found nothing to change.
pub open spec fn total(changed: Seq<usize>) -> nat
    decreases changed.len(),
{
    if changed.len() == 0 {
        0
    } else {
        total(changed.drop_last()) + changed.last() as nat
    }
}

/// The first statements of a batch changed no more rows than all of them.
pub proof fn lemma_total_of_prefix(changed: Seq<usize>, n: int)
    requires
        0 <= n <= changed.len(),
    ensures
        total(changed.take(n)) <= total(changed),
    decreases changed.len() - n,
{
    if n < changed.len() {
        assert(changed.take(n + 1).drop_last() == changed.take(n));
        lemma_total_of_prefix(changed, n + 1);
    } else {
        assert(changed.take(n) == changed);
    }
}

/// Where no statement changed a row, none was changed in all.
pub proof fn lemma_total_of_nothing(changed: Seq<usize>)
    requires
        forall|i: int| 0 <= i < changed.len() ==> changed[i] == 0,
    ensures
        total(changed) == 0,
    decreases changed.len(),
{
    if changed.len() > 0 {
        lemma_total_of_nothing(changed.drop_last());
    }
}

/// Adds up the rows that the statements of a batch changed; `None` where
/// the sum is more than a count can hold.
pub fn total_changed(changed: &Vec<usize>) -> (sum: Option<usize>)
    ensures
        match sum {
            Some(count) => count == total(changed@),
            None => total(changed@) > usize::MAX,
        },
{
    let mut count: usize = 0;
    let mut i: usize = 0;
    while i < changed.len()
        invariant
            i <= changed.len(),
            count == total(changed@.take(i as int)),
        decreases changed.len() - i,
    {
        proof {
            assert(changed@.take(i + 1).drop_last() == changed@.take(i as int));
        }
        count = match count.checked_add(changed[i]) {
            Some(more) => more,
            None => {
                proof {
                    lemma_total_of_prefix(changed@, i + 1);
                }
                return None;
            },
        };
        i += 1;
    }
    assert(changed@.take(changed@.len() as int) == changed@);
    Some(count)
}

} // verus!

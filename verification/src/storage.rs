//! The store: every operation on the graph as one transaction on a pooled
//! connection. An operation checks its whole input first, then works, then
//! commits; on any failure the transaction is dropped, which rolls it back.

use vstd::prelude::*;
use rusqlite::Connection;
use std::path::PathBuf;
use crate::codec::{
    corruption_message, entities_from_rows, is_corruption, json_items, read_from_rows,
    relations_from_rows,
};
use crate::observations::{lemma_added_are_few, lemma_added_are_new};
use crate::error::{describe, naming, StoreError, StoreErrorView};
use crate::graph::{
    addition_views, deletion_views, entity_views, relation_views, texts, Entity, KnowledgeGraph,
    ObservationDeletion, ObservationInput, ObservationInputView, ObservationResult,
    ObservationResultView, Relation, RelationView,
};
use crate::rules::{
    check_db_extension, distinct_names, encode_new_entity, extension_problem, inserted_entities,
    inserted_relations,
    addition_outcome, is_inserted_part, missing_message, plan_addition, plan_removal,
    referential_message, relation_insert_error, total_changed, Addition,
};
use crate::sqlite::{
    begin, build_pool, checkout, commit, engine_error_text, execute, execute_cached,
    extension_of, failure_of, file_manager, path_extension, pool_error_text, prepare, prepare_cached, query_optional_text,
    query_text_triples, run_script, session_connection, transaction_connection,
    with_prepared_connections, ConnectionPool, PooledSession,
};
use crate::text::{blank, build_placeholders, is_blank, placeholders, sanitize_fts5_query};
use crate::validation::{
    additions_problem, deletions_problem, entities_problem, names_problem, relations_problem,
    reports, validate_additions, validate_deletions, validate_entities, validate_names,
    validate_relations,
};

verus! {

/// The most connections that the pool opens onto the database file.
pub const MAX_CONNECTIONS: u32 = 15;

/// The tables, indexes and triggers of the store. Every statement creates
/// only what is missing, so the script runs on each opening.
///
/// An entity is identified by its name. A relation is a unique triple whose
/// endpoints refer to entities: the engine refuses a relation to a missing
/// entity and deletes the relations of a deleted one. The full-text index
/// over name, type and observations is kept in step by triggers.
pub const SCHEMA: &'static str = "
CREATE TABLE IF NOT EXISTS entities (
    name TEXT PRIMARY KEY NOT NULL,
    entity_type TEXT NOT NULL,
    observations TEXT NOT NULL
) STRICT;

CREATE TABLE IF NOT EXISTS relations (
    id INTEGER PRIMARY KEY AUTOINCREMENT,
    from_entity TEXT NOT NULL,
    to_entity TEXT NOT NULL,
    relation_type TEXT NOT NULL,
    UNIQUE(from_entity, to_entity, relation_type),
    FOREIGN KEY(from_entity) REFERENCES entities(name) ON DELETE CASCADE,
    FOREIGN KEY(to_entity) REFERENCES entities(name) ON DELETE CASCADE
) STRICT;

CREATE INDEX IF NOT EXISTS idx_entity_type ON entities(entity_type);
CREATE INDEX IF NOT EXISTS idx_from ON relations(from_entity);
CREATE INDEX IF NOT EXISTS idx_to ON relations(to_entity);
CREATE INDEX IF NOT EXISTS idx_relation_type ON relations(relation_type);
CREATE INDEX IF NOT EXISTS idx_relations_from_type ON relations(from_entity, relation_type);
CREATE INDEX IF NOT EXISTS idx_relations_to_type ON relations(to_entity, relation_type);

CREATE VIRTUAL TABLE IF NOT EXISTS entities_fts USING fts5(
    name,
    entity_type,
    observations,
    content='entities',
    content_rowid='rowid'
);

CREATE TRIGGER IF NOT EXISTS entities_ai AFTER INSERT ON entities BEGIN
    INSERT INTO entities_fts(rowid, name, entity_type, observations)
    VALUES (new.rowid, new.name, new.entity_type, new.observations);
END;

CREATE TRIGGER IF NOT EXISTS entities_ad AFTER DELETE ON entities BEGIN
    INSERT INTO entities_fts(entities_fts, rowid, name, entity_type, observations)
    VALUES ('delete', old.rowid, old.name, old.entity_type, old.observations);
END;

CREATE TRIGGER IF NOT EXISTS entities_au AFTER UPDATE ON entities BEGIN
    INSERT INTO entities_fts(entities_fts, rowid, name, entity_type, observations)
    VALUES ('delete', old.rowid, old.name, old.entity_type, old.observations);
    INSERT INTO entities_fts(rowid, name, entity_type, observations)
    VALUES (new.rowid, new.name, new.entity_type, new.observations);
END;
";

/// The error for a connection that the pool could not hand out.
fn pool_error(context: &str, cause: &r2d2::Error) -> (error: StoreError)
    ensures
        error@ is PoolExhaustion,
{
    let cause = pool_error_text(cause);
    StoreError::PoolExhaustion(describe(context, cause.as_str()))
}

/// The error for a call that the engine failed.
fn engine_error(context: &str, cause: &rusqlite::Error) -> (error: StoreError)
    ensures
        error@ is Internal,
{
    let cause = engine_error_text(cause);
    StoreError::Internal(describe(context, cause.as_str()))
}

/// Checks that a database path names a `*.db` file: its extension must be
/// `db`, in lower case.
pub fn validate_db_path(path: &PathBuf) -> (outcome: Result<(), StoreError>)
    ensures
        reports(outcome, extension_problem(extension_of(*path))),
{
    check_db_extension(path_extension(path))
}

/// The knowledge graph in its database file.
pub struct Database {
    pool: ConnectionPool,
}

impl Database {
    /// Opens the database at `path`, creating the file and the schema where
    /// they are missing. The directory of the file must exist. A path that
    /// does not name a `*.db` file is refused before anything is opened.
    pub fn open(path: &PathBuf) -> (outcome: Result<Database, StoreError>)
        ensures
            match extension_problem(extension_of(*path)) {
                Some(message) => outcome matches Err(e) && e@ == StoreErrorView::Validation(
                    message,
                ),
                None => outcome matches Err(e) ==> e@.is_engine_fault(),
            },
    {
        validate_db_path(path)?;
        let manager = with_prepared_connections(file_manager(path));
        let pool = match build_pool(manager, MAX_CONNECTIONS) {
            Ok(pool) => pool,
            Err(e) => {
                return Err(pool_error("Failed to create connection pool", &e));
            },
        };
        let database = Database { pool };
        {
            let session = database.session("Failed to get connection from pool")?;
            let conn = session_connection(&session);
            // The journal mode is kept in the file; asking again is harmless.
            match run_script(conn, "PRAGMA journal_mode = WAL;") {
                Ok(()) => {},
                Err(e) => {
                    return Err(engine_error("Failed to set the journal mode", &e));
                },
            }
            match run_script(conn, SCHEMA) {
                Ok(()) => {},
                Err(e) => {
                    return Err(engine_error("Failed to create the schema", &e));
                },
            }
        }
        Ok(database)
    }

    fn session(&self, context: &str) -> (outcome: Result<PooledSession, StoreError>)
        ensures
            outcome matches Err(e) ==> e@ is PoolExhaustion,
    {
        match checkout(&self.pool) {
            Ok(session) => Ok(session),
            Err(e) => Err(pool_error(context, &e)),
        }
    }

    /// Creates the entities that the store does not hold yet, and returns
    /// them in the order given. An entity whose name is taken is skipped
    /// silently. Either every new entity is stored or, on an error, none.
    /// An observation that a new entity gives more than once is stored
    /// once, at its first place.
    pub fn create_entities(&self, entities: &[Entity]) -> (outcome: Result<
        Vec<Entity>,
        StoreError,
    >)
        ensures
            entities@.len() == 0 ==> (outcome matches Ok(created) && created@.len() == 0),
            entities@.len() > 0 ==> match entities_problem(entity_views(entities@)) {
                Some(message) => outcome matches Err(e) && e@ == StoreErrorView::Validation(
                    message,
                ),
                None => match outcome {
                    Ok(created) => is_inserted_part(
                        entity_views(created@),
                        entity_views(entities@),
                    ),
                    Err(e) => e@.is_engine_fault(),
                },
            },
    {
        if entities.len() == 0 {
            return Ok(Vec::new());
        }
        validate_entities(entities)?;
        let session = self.session("Failed to get database connection from pool")?;
        let tx = match begin(session_connection(&session)) {
            Ok(tx) => tx,
            Err(e) => {
                return Err(
                    engine_error("Failed to start transaction for creating entities", &e),
                );
            },
        };
        let changed = insert_entities(transaction_connection(&tx), entities)?;
        match commit(tx) {
            Ok(()) => Ok(inserted_entities(entities, &changed)),
            Err(e) => Err(engine_error("Failed to commit transaction for creating entities", &e)),
        }
    }

    /// Creates the relations that the store does not hold yet, and returns
    /// them in the order given. A triple that is stored already is skipped
    /// silently. A relation to an entity that is not in the store fails the
    /// whole call: none of its relations is stored.
    pub fn create_relations(&self, relations: &[Relation]) -> (outcome: Result<
        Vec<Relation>,
        StoreError,
    >)
        ensures
            relations@.len() == 0 ==> (outcome matches Ok(created) && created@.len() == 0),
            relations@.len() > 0 ==> match relations_problem(relation_views(relations@)) {
                Some(message) => outcome matches Err(e) && e@ == StoreErrorView::Validation(
                    message,
                ),
                None => match outcome {
                    Ok(created) => is_inserted_part(
                        relation_views(created@),
                        relation_views(relations@),
                    ),
                    Err(e) => e@.is_engine_fault() || is_referential_for(
                        e@,
                        relation_views(relations@),
                    ),
                },
            },
    {
        if relations.len() == 0 {
            return Ok(Vec::new());
        }
        validate_relations(relations)?;
        let session = self.session("Failed to get database connection from pool")?;
        let tx = match begin(session_connection(&session)) {
            Ok(tx) => tx,
            Err(e) => {
                return Err(
                    engine_error("Failed to start transaction for creating relations", &e),
                );
            },
        };
        let changed = insert_relations(transaction_connection(&tx), relations)?;
        match commit(tx) {
            Ok(()) => Ok(inserted_relations(relations, &changed)),
            Err(e) => Err(
                engine_error("Failed to commit transaction for creating relations", &e),
            ),
        }
    }
}

/// Whether an error says that one of the given relations has a missing
/// endpoint.
pub open spec fn is_referential_for(error: StoreErrorView, relations: Seq<RelationView>) -> bool {
    exists|i: int|
        0 <= i < relations.len() && error == StoreErrorView::Referential(
            referential_message(#[trigger] relations[i]),
        )
}

/// Inserts each entity unless its name is taken; returns for each the
/// number of rows that its insertion changed. What is stored for the
/// observations of an entity is its `creation_text`.
fn insert_entities(conn: &Connection, entities: &[Entity]) -> (outcome: Result<
    Vec<usize>,
    StoreError,
>)
    ensures
        match outcome {
            Ok(changed) => changed@.len() == entities@.len(),
            Err(e) => e@.is_engine_fault(),
        },
{
    let mut statement = match prepare_cached(
        conn,
        "INSERT OR IGNORE INTO entities (name, entity_type, observations) VALUES (?1, ?2, ?3)",
    ) {
        Ok(statement) => statement,
        Err(e) => {
            return Err(engine_error("Failed to prepare insert statement for entities", &e));
        },
    };
    let mut changed: Vec<usize> = Vec::new();
    let mut i: usize = 0;
    while i < entities.len()
        invariant
            i <= entities.len(),
            changed@.len() == i,
        decreases entities.len() - i,
    {
        let entity = &entities[i];
        let stored = encode_new_entity(entity)?;
        match execute_cached(
            &mut statement,
            entity.name.as_str(),
            entity.entity_type.as_str(),
            stored.as_str(),
        ) {
            Ok(rows) => {
                changed.push(rows);
            },
            Err(e) => {
                let context = naming("Failed to insert entity '", entity.name.as_str());
                return Err(engine_error(context.as_str(), &e));
            },
        }
        i += 1;
    }
    Ok(changed)
}

/// Inserts each relation unless the triple is stored; returns for each the
/// number of rows that its insertion changed.
fn insert_relations(conn: &Connection, relations: &[Relation]) -> (outcome: Result<
    Vec<usize>,
    StoreError,
>)
    ensures
        match outcome {
            Ok(changed) => changed@.len() == relations@.len(),
            Err(e) => e@.is_engine_fault() || is_referential_for(e@, relation_views(relations@)),
        },
{
    let mut statement = match prepare_cached(
        conn,
        "INSERT OR IGNORE INTO relations (from_entity, to_entity, relation_type) VALUES (?1, ?2, ?3)",
    ) {
        Ok(statement) => statement,
        Err(e) => {
            return Err(engine_error("Failed to prepare insert statement for relations", &e));
        },
    };
    let mut changed: Vec<usize> = Vec::new();
    let mut i: usize = 0;
    while i < relations.len()
        invariant
            i <= relations.len(),
            changed@.len() == i,
        decreases relations.len() - i,
    {
        let relation = &relations[i];
        match execute_cached(
            &mut statement,
            relation.from.as_str(),
            relation.to.as_str(),
            relation.relation_type.as_str(),
        ) {
            Ok(rows) => {
                changed.push(rows);
            },
            Err(e) => {
                // The engine checks the endpoints: a broken constraint
                // means that one of them is missing.
                let cause = engine_error_text(&e);
                let error = relation_insert_error(relation, failure_of(&e), cause.as_str());
                assert(relation_views(relations@)[i as int] == relation@);
                return Err(error);
            },
        }
        i += 1;
    }
    Ok(changed)
}

/// Whether a result records an addition to the entity of a request: the
/// same name, and as added observations what `addition_outcome` gives for
/// the request and the text that the store held for the entity. Which
/// text that was is the engine's word.
pub open spec fn records_addition(result: ObservationResultView, input: ObservationInputView)
    -> bool {
    result.entity_name == input.entity_name && exists|stored: Seq<char>|
        (#[trigger] addition_outcome(input.entity_name, Some(stored), input.contents)) matches Ok(
            addition,
        ) && addition.added == result.added_observations
}

/// What a recorded addition adds are observations of its request, each
/// once.
pub proof fn lemma_recorded_additions(result: ObservationResultView, input: ObservationInputView)
    requires
        records_addition(result, input),
    ensures
        result.added_observations.no_duplicates(),
        result.added_observations.len() <= input.contents.len(),
        forall|i: int|
            0 <= i < result.added_observations.len() ==> input.contents.contains(
                #[trigger] result.added_observations[i],
            ),
{
    let stored = choose|stored: Seq<char>|
        (#[trigger] addition_outcome(input.entity_name, Some(stored), input.contents)) matches Ok(
            addition,
        ) && addition.added == result.added_observations;
    let held = json_items(stored)->0;
    lemma_added_are_new(held, input.contents);
    lemma_added_are_few(held, input.contents);
}

/// Whether an error says that the named entity is missing from the store
/// (`action` is `add` or `delete`) or that its stored observations cannot
/// be read.
pub open spec fn is_entity_fault(error: StoreErrorView, action: Seq<char>, entity: Seq<char>)
    -> bool {
    error == StoreErrorView::NotFound(missing_message(action, entity)) || error
        == StoreErrorView::Corruption(corruption_message(entity))
}

/// Adds the observations of one request to its entity.
fn add_to_entity(conn: &Connection, input: &ObservationInput) -> (outcome: Result<
    ObservationResult,
    StoreError,
>)
    ensures
        match outcome {
            Ok(result) => records_addition(result@, input@),
            Err(e) => e@.is_engine_fault() || is_entity_fault(e@, "add"@, input@.entity_name),
        },
{
    let name = input.entity_name.as_str();
    let stored = match query_optional_text(
        conn,
        "SELECT observations FROM entities WHERE name = ?1",
        name,
    ) {
        Ok(stored) => stored,
        Err(e) => {
            let context = naming("Database error querying entity '", name);
            return Err(engine_error(context.as_str(), &e));
        },
    };
    let ghost held = stored;
    let Addition { added, update } = plan_addition(name, stored, &input.contents)?;
    assert(addition_outcome(input@.entity_name, Some(held->0@), input@.contents) matches Ok(
        addition,
    ) && addition.added == texts(added@));
    // The entity is rewritten only where something was added.
    match update {
        Some(text) => {
            let params = vec![text, input.entity_name.clone()];
            match execute(
                conn,
                "UPDATE entities SET observations = ?1 WHERE name = ?2",
                params.as_slice(),
            ) {
                Ok(_) => {},
                Err(e) => {
                    let context = naming("Failed to update observations for entity '", name);
                    return Err(engine_error(context.as_str(), &e));
                },
            }
        },
        None => {},
    }
    Ok(ObservationResult { entity_name: input.entity_name.clone(), added_observations: added })
}

/// Removes the observations of one request from its entity.
fn remove_from_entity(conn: &Connection, deletion: &ObservationDeletion) -> (outcome: Result<
    (),
    StoreError,
>)
    ensures
        outcome matches Err(e) ==> e@.is_engine_fault() || is_entity_fault(
            e@,
            "delete"@,
            deletion@.entity_name,
        ),
{
    let name = deletion.entity_name.as_str();
    let stored = match query_optional_text(
        conn,
        "SELECT observations FROM entities WHERE name = ?1",
        name,
    ) {
        Ok(stored) => stored,
        Err(e) => {
            let context = naming("Database error querying entity '", name);
            return Err(engine_error(context.as_str(), &e));
        },
    };
    let text = plan_removal(name, stored, &deletion.observations)?;
    let params = vec![text, deletion.entity_name.clone()];
    match execute(
        conn,
        "UPDATE entities SET observations = ?1 WHERE name = ?2",
        params.as_slice(),
    ) {
        Ok(_) => Ok(()),
        Err(e) => {
            let context = naming("Failed to delete observations from entity '", name);
            Err(engine_error(context.as_str(), &e))
        },
    }
}

/// Adds the observations of each request, in order.
fn add_all(conn: &Connection, inputs: &[ObservationInput]) -> (outcome: Result<
    Vec<ObservationResult>,
    StoreError,
>)
    ensures
        match outcome {
            Ok(results) => results@.len() == inputs@.len() && forall|i: int|
                0 <= i < inputs@.len() ==> records_addition(#[trigger] results@[i]@, inputs@[i]@),
            Err(e) => e@.is_engine_fault() || exists|i: int|
                0 <= i < inputs@.len() && is_entity_fault(
                    e@,
                    "add"@,
                    (#[trigger] inputs@[i])@.entity_name,
                ),
        },
{
    let mut results: Vec<ObservationResult> = Vec::new();
    let mut i: usize = 0;
    while i < inputs.len()
        invariant
            i <= inputs.len(),
            results@.len() == i,
            forall|k: int| 0 <= k < i ==> records_addition(#[trigger] results@[k]@, inputs@[k]@),
        decreases inputs.len() - i,
    {
        let result = add_to_entity(conn, &inputs[i])?;
        results.push(result);
        i += 1;
    }
    Ok(results)
}

/// Removes the observations of each request, in order.
fn remove_all(conn: &Connection, deletions: &[ObservationDeletion]) -> (outcome: Result<
    (),
    StoreError,
>)
    ensures
        deletions@.len() == 0 ==> outcome is Ok,
        outcome matches Err(e) ==> e@.is_engine_fault() || exists|i: int|
            0 <= i < deletions@.len() && is_entity_fault(
                e@,
                "delete"@,
                (#[trigger] deletions@[i])@.entity_name,
            ),
{
    let mut i: usize = 0;
    while i < deletions.len()
        invariant
            i <= deletions.len(),
        decreases deletions.len() - i,
    {
        remove_from_entity(conn, &deletions[i])?;
        i += 1;
    }
    Ok(())
}

impl Database {
    /// Adds observations to entities. For each request the result lists
    /// the observations that its entity did not hold yet; one that it held
    /// is skipped silently. If an entity of the batch is missing, the whole
    /// call fails and nothing is stored.
    pub fn add_observations(&self, inputs: &[ObservationInput]) -> (outcome: Result<
        Vec<ObservationResult>,
        StoreError,
    >)
        ensures
            match additions_problem(addition_views(inputs@)) {
                Some(message) => outcome matches Err(e) && e@ == StoreErrorView::Validation(
                    message,
                ),
                None => match outcome {
                    Ok(results) => results@.len() == inputs@.len() && forall|i: int|
                        0 <= i < inputs@.len() ==> records_addition(
                            #[trigger] results@[i]@,
                            inputs@[i]@,
                        ),
                    Err(e) => e@.is_engine_fault() || exists|i: int|
                        0 <= i < inputs@.len() && is_entity_fault(
                            e@,
                            "add"@,
                            (#[trigger] inputs@[i])@.entity_name,
                        ),
                },
            },
    {
        validate_additions(inputs)?;
        let session = self.session("Failed to get database connection from pool")?;
        let tx = match begin(session_connection(&session)) {
            Ok(tx) => tx,
            Err(e) => {
                return Err(
                    engine_error("Failed to start transaction for adding observations", &e),
                );
            },
        };
        let results = add_all(transaction_connection(&tx), inputs)?;
        match commit(tx) {
            Ok(()) => Ok(results),
            Err(e) => Err(
                engine_error("Failed to commit transaction for adding observations", &e),
            ),
        }
    }

    /// Removes observations from entities, by exact match; the remaining
    /// ones keep their order. If an entity of the batch is missing, the
    /// whole call fails and nothing is changed.
    pub fn delete_observations(&self, deletions: &[ObservationDeletion]) -> (outcome: Result<
        (),
        StoreError,
    >)
        ensures
            match deletions_problem(deletion_views(deletions@)) {
                Some(message) => outcome matches Err(e) && e@ == StoreErrorView::Validation(
                    message,
                ),
                None => outcome matches Err(e) ==> e@.is_engine_fault() || exists|i: int|
                    0 <= i < deletions@.len() && is_entity_fault(
                        e@,
                        "delete"@,
                        (#[trigger] deletions@[i])@.entity_name,
                    ),
            },
    {
        validate_deletions(deletions)?;
        let session = self.session("Failed to get database connection from pool")?;
        let tx = match begin(session_connection(&session)) {
            Ok(tx) => tx,
            Err(e) => {
                return Err(
                    engine_error("Failed to start transaction for deleting observations", &e),
                );
            },
        };
        remove_all(transaction_connection(&tx), deletions)?;
        match commit(tx) {
            Ok(()) => Ok(()),
            Err(e) => Err(
                engine_error("Failed to commit transaction for deleting observations", &e),
            ),
        }
    }
}

/// The statement that deletes the entities of `count` names.
pub open spec fn delete_entities_sql(count: nat) -> Seq<char> {
    "DELETE FROM entities WHERE name IN ("@ + placeholders(count, 1) + ")"@
}

/// The query for the entities of `count` names.
pub open spec fn entities_by_names_sql(count: nat) -> Seq<char> {
    "SELECT name, entity_type, observations FROM entities WHERE name IN ("@ + placeholders(
        count,
        1,
    ) + ")"@
}

/// The query for the relations whose source and target are both among
/// `count` names. The names are bound twice: to the parameters from 1 on
/// for the source, and to those from `count + 1` on for the target.
pub open spec fn relations_between_sql(count: nat) -> Seq<char> {
    "SELECT from_entity, to_entity, relation_type FROM relations WHERE from_entity IN ("@
        + placeholders(count, 1) + ") AND to_entity IN ("@ + placeholders(count, count + 1)
        + ")"@
}

fn delete_entities_query(count: usize) -> (sql: String)
    ensures
        sql@ == delete_entities_sql(count as nat),
{
    let mut sql = String::from_str("DELETE FROM entities WHERE name IN (");
    sql.append(build_placeholders(count, 1).as_str());
    sql.append(")");
    sql
}

fn entities_by_names_query(count: usize) -> (sql: String)
    ensures
        sql@ == entities_by_names_sql(count as nat),
{
    let mut sql = String::from_str(
        "SELECT name, entity_type, observations FROM entities WHERE name IN (",
    );
    sql.append(build_placeholders(count, 1).as_str());
    sql.append(")");
    sql
}

fn relations_between_query(count: usize) -> (sql: String)
    requires
        2 * count <= usize::MAX,
    ensures
        sql@ == relations_between_sql(count as nat),
{
    let mut sql = String::from_str(
        "SELECT from_entity, to_entity, relation_type FROM relations WHERE from_entity IN (",
    );
    sql.append(build_placeholders(count, 1).as_str());
    sql.append(") AND to_entity IN (");
    sql.append(build_placeholders(count, count + 1).as_str());
    sql.append(")");
    sql
}

/// Runs a query and returns the first three columns of its rows.
fn query_rows(conn: &Connection, sql: &str, params: &[String], context: &str) -> (outcome:
    Result<Vec<(String, String, String)>, StoreError>)
    ensures
        outcome matches Err(e) ==> e@ is Internal,
{
    let mut statement = match prepare(conn, sql) {
        Ok(statement) => statement,
        Err(e) => {
            return Err(engine_error(context, &e));
        },
    };
    match query_text_triples(&mut statement, params) {
        Ok(rows) => Ok(rows),
        Err(e) => Err(engine_error(context, &e)),
    }
}

/// Whether an error may come from reading the store: a fault of the
/// engine, or stored observations that cannot be read back, with the name
/// of their entity.
pub open spec fn is_read_fault(error: StoreErrorView) -> bool {
    error.is_engine_fault() || is_corruption(error)
}

/// Whether an outcome is what reading entities from the engine's rows can
/// give: entities read from rows, the corruption error of a row that
/// cannot be read, or a fault of the engine.
pub open spec fn is_reading(outcome: Result<Vec<Entity>, StoreError>) -> bool {
    match outcome {
        Ok(entities) => read_from_rows(entity_views(entities@)),
        Err(e) => is_read_fault(e@),
    }
}

/// Reads every entity.
fn read_all_entities(conn: &Connection) -> (outcome: Result<Vec<Entity>, StoreError>)
    ensures
        is_reading(outcome),
{
    let none: Vec<String> = Vec::new();
    let rows = query_rows(
        conn,
        "SELECT name, entity_type, observations FROM entities",
        none.as_slice(),
        "Failed to read entities",
    )?;
    entities_from_rows(&rows)
}

/// Reads every relation.
fn read_all_relations(conn: &Connection) -> (outcome: Result<Vec<Relation>, StoreError>)
    ensures
        outcome matches Err(e) ==> e@.is_engine_fault(),
{
    let none: Vec<String> = Vec::new();
    let rows = query_rows(
        conn,
        "SELECT from_entity, to_entity, relation_type FROM relations",
        none.as_slice(),
        "Failed to read relations",
    )?;
    Ok(relations_from_rows(&rows))
}

/// Reads the entities that the full-text index matches with a query made
/// safe.
fn search_entities_fts(conn: &Connection, fts_query: String) -> (outcome: Result<
    Vec<Entity>,
    StoreError,
>)
    ensures
        is_reading(outcome),
{
    let params = vec![fts_query];
    let rows = query_rows(
        conn,
        "SELECT e.name, e.entity_type, e.observations FROM entities e INNER JOIN entities_fts fts ON e.rowid = fts.rowid WHERE entities_fts MATCH ?1",
        params.as_slice(),
        "Failed to search entities",
    )?;
    entities_from_rows(&rows)
}

/// Reads the entities with the given names.
fn read_entities_by_names(conn: &Connection, names: &[String]) -> (outcome: Result<
    Vec<Entity>,
    StoreError,
>)
    ensures
        is_reading(outcome),
{
    let sql = entities_by_names_query(names.len());
    let rows = query_rows(conn, sql.as_str(), names, "Failed to read entities")?;
    entities_from_rows(&rows)
}

/// A list of names followed by itself: the parameters of the query for
/// the relations between entities, which binds every name once for the
/// source and once for the target.
fn twice(names: &Vec<String>) -> (params: Vec<String>)
    ensures
        texts(params@) == texts(names@) + texts(names@),
{
    let mut params: Vec<String> = Vec::new();
    let mut i: usize = 0;
    while i < names.len()
        invariant
            i <= names.len(),
            texts(params@) == texts(names@).take(i as int),
        decreases names.len() - i,
    {
        params.push(names[i].clone());
        assert(texts(params@) == texts(names@).take(i as int).push(names[i as int]@));
        i += 1;
    }
    let mut k: usize = 0;
    while k < names.len()
        invariant
            k <= names.len(),
            texts(params@) == texts(names@) + texts(names@).take(k as int),
        decreases names.len() - k,
    {
        params.push(names[k].clone());
        assert(texts(params@) == (texts(names@) + texts(names@).take(k as int)).push(
            names[k as int]@,
        ));
        k += 1;
    }
    params
}

/// Reads the relations whose source and target are both among the given
/// entities.
fn get_relations_between(conn: &Connection, entities: &Vec<Entity>) -> (outcome: Result<
    Vec<Relation>,
    StoreError,
>)
    ensures
        entities@.len() == 0 ==> (outcome matches Ok(relations) && relations@.len() == 0),
        outcome matches Err(e) ==> e@.is_engine_fault(),
{
    if entities.len() == 0 {
        return Ok(Vec::new());
    }
    let names = distinct_names(entities);
    let count = names.len();
    if count > usize::MAX / 2 {
        return Err(
            StoreError::Internal(String::from_str("Too many entities to read relations between")),
        );
    }
    let sql = relations_between_query(count);
    let params = twice(&names);
    let rows = query_rows(conn, sql.as_str(), params.as_slice(), "Failed to read relations")?;
    Ok(relations_from_rows(&rows))
}

/// Deletes each relation that is stored; returns how many rows the
/// deletions changed in all. Each number is the engine's word, so nothing
/// holds of the count but that `total_changed` added it up.
fn delete_each_relation(conn: &Connection, relations: &[Relation]) -> (outcome: Result<
    usize,
    StoreError,
>)
    ensures
        outcome matches Err(e) ==> e@.is_engine_fault(),
{
    let mut statement = match prepare_cached(
        conn,
        "DELETE FROM relations WHERE from_entity = ?1 AND to_entity = ?2 AND relation_type = ?3",
    ) {
        Ok(statement) => statement,
        Err(e) => {
            return Err(engine_error("Failed to prepare delete statement for relations", &e));
        },
    };
    let mut changed: Vec<usize> = Vec::new();
    let mut i: usize = 0;
    while i < relations.len()
        invariant
            i <= relations.len(),
            changed@.len() == i,
        decreases relations.len() - i,
    {
        let relation = &relations[i];
        // The statement changes one row where the triple is stored, none
        // where it is not.
        match execute_cached(
            &mut statement,
            relation.from.as_str(),
            relation.to.as_str(),
            relation.relation_type.as_str(),
        ) {
            Ok(rows) => {
                changed.push(rows);
            },
            Err(e) => {
                let cause = engine_error_text(&e);
                return Err(relation_delete_error(relation, cause.as_str()));
            },
        }
        i += 1;
    }
    match total_changed(&changed) {
        Some(count) => Ok(count),
        None => Err(StoreError::Internal(String::from_str("Too many relations deleted to count"))),
    }
}

fn relation_delete_error(relation: &Relation, cause: &str) -> (error: StoreError)
    ensures
        error@ is Internal,
{
    let mut context = String::from_str("Failed to delete relation '");
    context.append(relation.from.as_str());
    context.append("' -> '");
    context.append(relation.to.as_str());
    context.append("' (type: '");
    context.append(relation.relation_type.as_str());
    context.append("')");
    StoreError::Internal(describe(context.as_str(), cause))
}

/// The text of an optional query; no query is an empty one.
pub open spec fn query_text(query: Option<&str>) -> Seq<char> {
    match query {
        Some(text) => text@,
        None => Seq::empty(),
    }
}

impl Database {
    /// Deletes the entities with the given names, and with each of them
    /// every relation that it is an endpoint of: the schema has the engine
    /// do so. Returns how many entities were deleted; a name that is not in
    /// the store counts for nothing and is no error.
    pub fn delete_entities(&self, names: &[String]) -> (outcome: Result<usize, StoreError>)
        ensures
            names@.len() == 0 ==> outcome == Ok::<usize, StoreError>(0),
            names@.len() > 0 ==> match names_problem(texts(names@)) {
                Some(message) => outcome matches Err(e) && e@ == StoreErrorView::Validation(
                    message,
                ),
                None => outcome matches Err(e) ==> e@.is_engine_fault(),
            },
    {
        if names.len() == 0 {
            return Ok(0);
        }
        validate_names(names)?;
        let session = self.session("Failed to get database connection from pool")?;
        let tx = match begin(session_connection(&session)) {
            Ok(tx) => tx,
            Err(e) => {
                return Err(
                    engine_error("Failed to start transaction for deleting entities", &e),
                );
            },
        };
        let sql = delete_entities_query(names.len());
        let count = match execute(transaction_connection(&tx), sql.as_str(), names) {
            Ok(count) => count,
            Err(e) => {
                return Err(engine_error("Failed to delete entities", &e));
            },
        };
        match commit(tx) {
            Ok(()) => Ok(count),
            Err(e) => Err(engine_error("Failed to commit transaction for deleting entities", &e)),
        }
    }

    /// Deletes the given relations, each by its exact triple. Returns how
    /// many were deleted; a triple that is not in the store counts for
    /// nothing and is no error. The count is the total of what the engine
    /// reports for each deletion: of a batch that is not empty, nothing
    /// holds of it but that.
    pub fn delete_relations(&self, relations: &[Relation]) -> (outcome: Result<
        usize,
        StoreError,
    >)
        ensures
            relations@.len() == 0 ==> outcome == Ok::<usize, StoreError>(0),
            relations@.len() > 0 ==> match relations_problem(relation_views(relations@)) {
                Some(message) => outcome matches Err(e) && e@ == StoreErrorView::Validation(
                    message,
                ),
                None => outcome matches Err(e) ==> e@.is_engine_fault(),
            },
    {
        if relations.len() == 0 {
            return Ok(0);
        }
        validate_relations(relations)?;
        let session = self.session("Failed to get database connection from pool")?;
        let tx = match begin(session_connection(&session)) {
            Ok(tx) => tx,
            Err(e) => {
                return Err(
                    engine_error("Failed to start transaction for deleting relations", &e),
                );
            },
        };
        let count = delete_each_relation(transaction_connection(&tx), relations)?;
        match commit(tx) {
            Ok(()) => Ok(count),
            Err(e) => Err(
                engine_error("Failed to commit transaction for deleting relations", &e),
            ),
        }
    }

    /// Reads the whole graph: every entity and every relation, as the
    /// store holds them at the time of the call.
    pub fn read_graph(&self) -> (outcome: Result<KnowledgeGraph, StoreError>)
        ensures
            match outcome {
                Ok(graph) => read_from_rows(graph@.entities),
                Err(e) => is_read_fault(e@),
            },
    {
        let session = self.session("Failed to get database connection from pool")?;
        let conn = session_connection(&session);
        let entities = read_all_entities(conn)?;
        let relations = read_all_relations(conn)?;
        Ok(KnowledgeGraph { entities, relations })
    }

    /// Searches the entities by the words of a query, in their names, types
    /// and observations, and returns those that hold every word together
    /// with the relations between them. No query, or a blank one, reads
    /// the whole graph.
    pub fn search_nodes(&self, query: Option<&str>) -> (outcome: Result<
        KnowledgeGraph,
        StoreError,
    >)
        ensures
            match outcome {
                Ok(graph) => read_from_rows(graph@.entities) && (!is_blank(query_text(query))
                    && graph@.entities.len() == 0 ==> graph@.relations.len() == 0),
                Err(e) => is_read_fault(e@),
            },
    {
        let text = match query {
            Some(text) => text,
            None => "",
        };
        proof {
            reveal_strlit("");
        }
        if blank(text) {
            return self.read_graph();
        }
        let session = self.session("Failed to get database connection from pool")?;
        let conn = session_connection(&session);
        let entities = search_entities_fts(conn, sanitize_fts5_query(text))?;
        let relations = get_relations_between(conn, &entities)?;
        Ok(KnowledgeGraph { entities, relations })
    }

    /// Reads the entities with the given names, as far as the store holds
    /// them, and the relations between them. A name that is not in the
    /// store is left out silently.
    pub fn open_nodes(&self, names: &[String]) -> (outcome: Result<KnowledgeGraph, StoreError>)
        ensures
            names@.len() == 0 ==> (outcome matches Ok(graph) && graph@.entities.len() == 0
                && graph@.relations.len() == 0),
            names@.len() > 0 ==> match names_problem(texts(names@)) {
                Some(message) => outcome matches Err(e) && e@ == StoreErrorView::Validation(
                    message,
                ),
                None => match outcome {
                    Ok(graph) => read_from_rows(graph@.entities) && (graph@.entities.len() == 0
                        ==> graph@.relations.len() == 0),
                    Err(e) => is_read_fault(e@),
                },
            },
    {
        if names.len() == 0 {
            return Ok(KnowledgeGraph::default());
        }
        validate_names(names)?;
        let session = self.session("Failed to get database connection from pool")?;
        let conn = session_connection(&session);
        let entities = read_entities_by_names(conn, names)?;
        let relations = get_relations_between(conn, &entities)?;
        Ok(KnowledgeGraph { entities, relations })
    }
}

} // verus!

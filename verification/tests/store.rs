use memory_mcp_rs::error::StoreError;
use memory_mcp_rs::graph::{Entity, KnowledgeGraph, ObservationDeletion, ObservationInput, Relation};
use memory_mcp_rs::storage::{validate_db_path, Database};
use tempfile::TempDir;

fn open_store() -> (TempDir, std::path::PathBuf, Database) {
    let dir = TempDir::new().unwrap();
    let path = dir.path().join("graph.db");
    let db = Database::open(&path).unwrap();
    (dir, path, db)
}

fn entity(name: &str, entity_type: &str, observations: &[&str]) -> Entity {
    Entity {
        name: name.to_string(),
        entity_type: entity_type.to_string(),
        observations: observations.iter().map(|o| o.to_string()).collect(),
    }
}

fn relation(from: &str, to: &str, relation_type: &str) -> Relation {
    Relation {
        from: from.to_string(),
        to: to.to_string(),
        relation_type: relation_type.to_string(),
    }
}

fn addition(name: &str, contents: &[&str]) -> ObservationInput {
    ObservationInput {
        entity_name: name.to_string(),
        contents: contents.iter().map(|o| o.to_string()).collect(),
    }
}

fn deletion(name: &str, observations: &[&str]) -> ObservationDeletion {
    ObservationDeletion {
        entity_name: name.to_string(),
        observations: observations.iter().map(|o| o.to_string()).collect(),
    }
}

fn names(graph: &KnowledgeGraph) -> Vec<String> {
    let mut names: Vec<String> = graph.entities.iter().map(|e| e.name.clone()).collect();
    names.sort();
    names
}

fn strings(items: &[&str]) -> Vec<String> {
    items.iter().map(|item| item.to_string()).collect()
}

#[test]
fn creating_an_entity_twice_stores_it_once() {
    let (_dir, _path, db) = open_store();
    let alice = entity("Alice", "person", &["first"]);
    assert_eq!(db.create_entities(&[alice.clone()]).unwrap(), vec![alice.clone()]);
    assert_eq!(db.create_entities(&[alice.clone()]).unwrap(), vec![]);
    // A second version under the same name does not replace the first.
    assert_eq!(
        db.create_entities(&[entity("Alice", "robot", &["second"])]).unwrap(),
        vec![]
    );
    let graph = db.read_graph().unwrap();
    assert_eq!(graph.entities, vec![alice]);
}

#[test]
fn a_batch_with_a_name_twice_creates_the_first_only() {
    let (_dir, _path, db) = open_store();
    let first = entity("Alice", "person", &["first"]);
    let second = entity("Alice", "person", &["second"]);
    let bob = entity("Bob", "person", &[]);
    let created = db
        .create_entities(&[first.clone(), second, bob.clone()])
        .unwrap();
    assert_eq!(created, vec![first, bob]);
}

#[test]
fn creating_returns_the_new_entities_in_the_order_given() {
    let (_dir, _path, db) = open_store();
    db.create_entities(&[entity("b", "t", &[])]).unwrap();
    let batch = [
        entity("c", "t", &[]),
        entity("b", "t", &[]),
        entity("a", "t", &[]),
    ];
    let created = db.create_entities(&batch).unwrap();
    assert_eq!(created, vec![batch[0].clone(), batch[2].clone()]);
}

#[test]
fn creating_nothing_is_no_error() {
    let (_dir, _path, db) = open_store();
    assert_eq!(db.create_entities(&[]).unwrap(), vec![]);
    assert_eq!(db.create_relations(&[]).unwrap(), vec![]);
    assert_eq!(db.delete_entities(&[]).unwrap(), 0);
    assert_eq!(db.delete_relations(&[]).unwrap(), 0);
    assert_eq!(db.add_observations(&[]).unwrap().len(), 0);
    assert_eq!(db.delete_observations(&[]), Ok(()));
}

#[test]
fn an_invalid_entity_late_in_a_batch_stores_nothing() {
    let (_dir, _path, db) = open_store();
    let outcome = db.create_entities(&[entity("Alice", "person", &[]), entity("Bob", "per son", &[])]);
    assert!(matches!(outcome, Err(StoreError::Validation(_))));
    assert_eq!(db.read_graph().unwrap().entities.len(), 0);
}

#[test]
fn a_relation_to_a_missing_entity_changes_nothing() {
    let (_dir, _path, db) = open_store();
    db.create_entities(&[entity("Alice", "person", &[]), entity("Bob", "person", &[])])
        .unwrap();
    db.create_relations(&[relation("Alice", "Bob", "knows")]).unwrap();

    for missing in [
        relation("Alice", "Ghost", "knows"),
        relation("Ghost", "Alice", "knows"),
        relation("Ghost", "Phantom", "knows"),
    ] {
        let outcome = db.create_relations(&[missing.clone()]);
        assert_eq!(
            outcome,
            Err(StoreError::Referential(format!(
                "Cannot create relation '{}' -> '{}' (type: 'knows'): one or both entities do not exist",
                missing.from, missing.to
            )))
        );
        let graph = db.read_graph().unwrap();
        assert_eq!(graph.entities.len(), 2);
        assert_eq!(graph.relations, vec![relation("Alice", "Bob", "knows")]);
    }
}

#[test]
fn a_missing_endpoint_late_in_a_batch_stores_none_of_its_relations() {
    let (_dir, _path, db) = open_store();
    db.create_entities(&[entity("Alice", "person", &[]), entity("Bob", "person", &[])])
        .unwrap();
    let outcome = db.create_relations(&[
        relation("Alice", "Bob", "knows"),
        relation("Bob", "Alice", "knows"),
        relation("Bob", "Ghost", "knows"),
    ]);
    assert!(matches!(outcome, Err(StoreError::Referential(_))));
    assert_eq!(db.read_graph().unwrap().relations.len(), 0);
}

#[test]
fn foreign_keys_are_enforced_on_every_connection_of_the_pool() {
    let (_dir, _path, db) = open_store();
    for _ in 0..40 {
        let outcome = db.create_relations(&[relation("Ghost", "Phantom", "knows")]);
        assert!(matches!(outcome, Err(StoreError::Referential(_))));
    }
    assert_eq!(db.read_graph().unwrap().relations.len(), 0);
}

#[test]
fn a_stored_triple_is_skipped_silently() {
    let (_dir, _path, db) = open_store();
    db.create_entities(&[entity("Alice", "person", &[]), entity("Bob", "person", &[])])
        .unwrap();
    let knows = relation("Alice", "Bob", "knows");
    let likes = relation("Alice", "Bob", "likes");
    assert_eq!(db.create_relations(&[knows.clone()]).unwrap(), vec![knows.clone()]);
    assert_eq!(
        db.create_relations(&[knows.clone(), likes.clone(), knows.clone()]).unwrap(),
        vec![likes]
    );
    assert_eq!(db.read_graph().unwrap().relations.len(), 2);
}

#[test]
fn a_relation_may_join_an_entity_to_itself() {
    let (_dir, _path, db) = open_store();
    db.create_entities(&[entity("Alice", "person", &[])]).unwrap();
    let own = relation("Alice", "Alice", "knows");
    assert_eq!(db.create_relations(&[own.clone()]).unwrap(), vec![own]);
    assert_eq!(db.delete_entities(&strings(&["Alice"])).unwrap(), 1);
    assert_eq!(db.read_graph().unwrap().relations.len(), 0);
}

#[test]
fn deleting_an_entity_deletes_its_relations_in_both_directions() {
    let (_dir, _path, db) = open_store();
    db.create_entities(&[
        entity("Alice", "person", &[]),
        entity("Bob", "person", &[]),
        entity("Carol", "person", &[]),
    ])
    .unwrap();
    db.create_relations(&[
        relation("Alice", "Bob", "knows"),
        relation("Bob", "Alice", "knows"),
        relation("Bob", "Carol", "knows"),
    ])
    .unwrap();

    assert_eq!(db.delete_entities(&strings(&["Alice"])).unwrap(), 1);

    let graph = db.read_graph().unwrap();
    assert_eq!(names(&graph), strings(&["Bob", "Carol"]));
    assert_eq!(graph.relations, vec![relation("Bob", "Carol", "knows")]);
}

#[test]
fn deleting_counts_the_entities_that_were_there() {
    let (_dir, _path, db) = open_store();
    db.create_entities(&[entity("Alice", "person", &[]), entity("Bob", "person", &[])])
        .unwrap();
    assert_eq!(db.delete_entities(&strings(&["Ghost"])).unwrap(), 0);
    assert_eq!(
        db.delete_entities(&strings(&["Alice", "Ghost", "Alice", "Bob"])).unwrap(),
        2
    );
    assert_eq!(db.delete_entities(&strings(&["Alice"])).unwrap(), 0);
    assert_eq!(db.read_graph().unwrap().entities.len(), 0);
}

#[test]
fn deleting_with_an_invalid_name_deletes_nothing() {
    let (_dir, _path, db) = open_store();
    db.create_entities(&[entity("Alice", "person", &[])]).unwrap();
    let outcome = db.delete_entities(&strings(&["Alice", ""]));
    assert_eq!(
        outcome,
        Err(StoreError::Validation("Entity name cannot be empty".to_string()))
    );
    assert_eq!(db.read_graph().unwrap().entities.len(), 1);
}

#[test]
fn deleting_relations_counts_the_triples_that_were_there() {
    let (_dir, _path, db) = open_store();
    db.create_entities(&[entity("Alice", "person", &[]), entity("Bob", "person", &[])])
        .unwrap();
    db.create_relations(&[
        relation("Alice", "Bob", "knows"),
        relation("Alice", "Bob", "likes"),
        relation("Bob", "Alice", "knows"),
    ])
    .unwrap();
    let count = db
        .delete_relations(&[
            relation("Alice", "Bob", "knows"),
            relation("Alice", "Bob", "hates"),
            relation("Alice", "Bob", "knows"),
            relation("Bob", "Alice", "knows"),
        ])
        .unwrap();
    assert_eq!(count, 2);
    let graph = db.read_graph().unwrap();
    assert_eq!(graph.relations, vec![relation("Alice", "Bob", "likes")]);
    assert_eq!(graph.entities.len(), 2);
}

#[test]
fn a_known_observation_is_not_added_again() {
    let (_dir, _path, db) = open_store();
    db.create_entities(&[entity("Alice", "person", &["Works at Acme"])])
        .unwrap();

    let results = db
        .add_observations(&[addition("Alice", &["Works at Acme"])])
        .unwrap();
    assert_eq!(results.len(), 1);
    assert_eq!(results[0].entity_name, "Alice");
    assert_eq!(results[0].added_observations, strings(&[]));

    let graph = db.read_graph().unwrap();
    assert_eq!(graph.entities[0].observations, strings(&["Works at Acme"]));
}

#[test]
fn added_observations_are_reported_and_stored_in_order() {
    let (_dir, _path, db) = open_store();
    db.create_entities(&[entity("Alice", "person", &["a"]), entity("Bob", "person", &[])])
        .unwrap();

    let results = db
        .add_observations(&[
            addition("Alice", &["b", "a", "c", "b"]),
            addition("Bob", &["x"]),
            addition("Alice", &["c", "d"]),
        ])
        .unwrap();
    assert_eq!(results.len(), 3);
    assert_eq!(results[0].added_observations, strings(&["b", "c"]));
    assert_eq!(results[1].entity_name, "Bob");
    assert_eq!(results[1].added_observations, strings(&["x"]));
    assert_eq!(results[2].added_observations, strings(&["d"]));

    let opened = db.open_nodes(&strings(&["Alice"])).unwrap();
    assert_eq!(opened.entities[0].observations, strings(&["a", "b", "c", "d"]));
}

#[test]
fn adding_to_a_missing_entity_fails_the_whole_batch() {
    let (_dir, _path, db) = open_store();
    db.create_entities(&[entity("Alice", "person", &[])]).unwrap();

    let outcome = db.add_observations(&[addition("Alice", &["kept?"]), addition("Ghost", &["x"])]);
    assert_eq!(
        outcome.unwrap_err(),
        StoreError::NotFound("Cannot add observations: entity 'Ghost' does not exist".to_string())
    );
    assert_eq!(db.read_graph().unwrap().entities[0].observations, strings(&[]));
}

#[test]
fn removing_from_a_missing_entity_fails_the_whole_batch() {
    let (_dir, _path, db) = open_store();
    db.create_entities(&[entity("Alice", "person", &["a", "b"])]).unwrap();

    let outcome = db.delete_observations(&[deletion("Alice", &["a"]), deletion("Ghost", &["x"])]);
    assert_eq!(
        outcome,
        Err(StoreError::NotFound(
            "Cannot delete observations: entity 'Ghost' does not exist".to_string()
        ))
    );
    assert_eq!(
        db.read_graph().unwrap().entities[0].observations,
        strings(&["a", "b"])
    );
}

#[test]
fn removed_observations_leave_the_others_in_their_order() {
    let (_dir, _path, db) = open_store();
    db.create_entities(&[entity("Alice", "person", &["a", "b", "c", "d"])])
        .unwrap();
    db.delete_observations(&[deletion("Alice", &["c", "a", "unknown"])])
        .unwrap();
    assert_eq!(
        db.read_graph().unwrap().entities[0].observations,
        strings(&["b", "d"])
    );
}

#[test]
fn a_search_without_a_match_finds_nothing() {
    let (_dir, _path, db) = open_store();
    db.create_entities(&[
        entity("Alice", "person", &["Lives in Paris"]),
        entity("Bob", "person", &["Lives in London"]),
    ])
    .unwrap();
    db.create_relations(&[relation("Alice", "Bob", "knows")]).unwrap();

    let result = db.search_nodes(Some("Tokyo")).unwrap();
    assert_eq!(result.entities.len(), 0);
    assert_eq!(result.relations.len(), 0);
}

#[test]
fn a_search_returns_the_relations_between_its_matches_only() {
    let (_dir, _path, db) = open_store();
    db.create_entities(&[
        entity("Alice", "person", &["Lives in Paris"]),
        entity("Bob", "person", &["Lives in Paris"]),
        entity("Carol", "person", &["Lives in London"]),
    ])
    .unwrap();
    db.create_relations(&[
        relation("Alice", "Bob", "knows"),
        relation("Alice", "Carol", "knows"),
        relation("Carol", "Bob", "knows"),
    ])
    .unwrap();

    let result = db.search_nodes(Some("paris")).unwrap();
    assert_eq!(names(&result), strings(&["Alice", "Bob"]));
    assert_eq!(result.relations, vec![relation("Alice", "Bob", "knows")]);
}

#[test]
fn a_search_matches_whole_words_in_any_case_and_needs_every_word() {
    let (_dir, _path, db) = open_store();
    db.create_entities(&[
        entity("Alice", "person", &["Senior software engineer at Google"]),
        entity("Bob", "robot", &["Junior software developer"]),
    ])
    .unwrap();

    assert_eq!(names(&db.search_nodes(Some("SOFTWARE")).unwrap()), strings(&["Alice", "Bob"]));
    assert_eq!(names(&db.search_nodes(Some("soft")).unwrap()), strings(&[]));
    assert_eq!(names(&db.search_nodes(Some("software engineer")).unwrap()), strings(&["Alice"]));
    assert_eq!(names(&db.search_nodes(Some("engineer developer")).unwrap()), strings(&[]));
    // Name and type are searched too.
    assert_eq!(names(&db.search_nodes(Some("bob")).unwrap()), strings(&["Bob"]));
    assert_eq!(names(&db.search_nodes(Some("robot")).unwrap()), strings(&["Bob"]));
}

#[test]
fn a_search_takes_operators_as_plain_words() {
    let (_dir, _path, db) = open_store();
    db.create_entities(&[
        entity("Alice", "person", &["Lives in Paris"]),
        entity("Bob", "person", &["Lives in London"]),
    ])
    .unwrap();

    // As an operator, OR would match both entities.
    assert_eq!(names(&db.search_nodes(Some("Paris OR London")).unwrap()), strings(&[]));
    // As an operator, the star would match by prefix.
    assert_eq!(names(&db.search_nodes(Some("Par*")).unwrap()), strings(&[]));
    for odd in ["\"", "\"unbalanced", "NEAR(", "a AND", "name:", "(", "-", "^x", "' OR 1=1 --", "\"\"\""] {
        assert!(db.search_nodes(Some(odd)).is_ok(), "{:?}", odd);
    }
}

#[test]
fn a_blank_search_reads_the_whole_graph() {
    let (_dir, _path, db) = open_store();
    db.create_entities(&[entity("Alice", "person", &[]), entity("Bob", "person", &[])])
        .unwrap();
    db.create_relations(&[relation("Alice", "Bob", "knows")]).unwrap();
    for query in [None, Some(""), Some("   "), Some("\t\n")] {
        let result = db.search_nodes(query).unwrap();
        assert_eq!(names(&result), strings(&["Alice", "Bob"]));
        assert_eq!(result.relations.len(), 1);
    }
}

#[test]
fn a_search_follows_changes_of_the_observations() {
    let (_dir, _path, db) = open_store();
    db.create_entities(&[entity("Alice", "person", &["Lives in Paris"])])
        .unwrap();
    db.add_observations(&[addition("Alice", &["Plays chess"])]).unwrap();
    assert_eq!(names(&db.search_nodes(Some("chess")).unwrap()), strings(&["Alice"]));
    db.delete_observations(&[deletion("Alice", &["Lives in Paris"])]).unwrap();
    assert_eq!(names(&db.search_nodes(Some("Paris")).unwrap()), strings(&[]));
    db.delete_entities(&strings(&["Alice"])).unwrap();
    assert_eq!(names(&db.search_nodes(Some("chess")).unwrap()), strings(&[]));
}

#[test]
fn what_is_created_is_read_back_equal() {
    let (_dir, _path, db) = open_store();
    let samples = vec![
        entity("Alice", "person", &["Works at Acme Corp"]),
        entity("Acme Corp", "organization", &[]),
        entity("'; DROP TABLE entities; --", "x:y-z_0.1", &["say \"hi\"", "back\\slash", "two\nlines", ""]),
        entity("Zoë 日本語 🎉", "person", &["ünïcödé", "[\"json\"]", "a,b"]),
        entity(&"A".repeat(256), &"t".repeat(128), &[&"o".repeat(4096)]),
    ];
    for sample in &samples {
        assert_eq!(db.create_entities(&[sample.clone()]).unwrap(), vec![sample.clone()]);
        let graph = db.read_graph().unwrap();
        assert!(graph.entities.contains(sample), "{:?}", sample.name);
    }
    assert_eq!(db.read_graph().unwrap().entities.len(), samples.len());
}

#[test]
fn the_graph_of_alice_and_acme() {
    let (_dir, _path, db) = open_store();
    let alice = entity("Alice", "person", &["Works at Acme Corp"]);
    let acme = entity("Acme Corp", "organization", &[]);
    db.create_entities(&[alice.clone()]).unwrap();
    db.create_entities(&[acme.clone()]).unwrap();
    db.create_relations(&[relation("Alice", "Acme Corp", "works_at")])
        .unwrap();

    let graph = db.read_graph().unwrap();
    assert_eq!(graph.entities.len(), 2);
    assert_eq!(graph.relations.len(), 1);

    assert_eq!(db.delete_entities(&strings(&["Alice"])).unwrap(), 1);

    let graph = db.read_graph().unwrap();
    assert_eq!(graph.entities, vec![acme]);
    assert_eq!(graph.relations.len(), 0);
}

#[test]
fn an_empty_name_is_a_validation_error_that_says_empty() {
    let (_dir, _path, db) = open_store();
    let outcome = db.create_entities(&[entity("", "person", &[])]);
    assert_eq!(
        outcome,
        Err(StoreError::Validation("Entity name cannot be empty".to_string()))
    );
    assert!(outcome.unwrap_err().message().contains("empty"));
}

#[test]
fn opening_nodes_leaves_out_the_missing_and_the_relations_to_others() {
    let (_dir, _path, db) = open_store();
    db.create_entities(&[
        entity("Alice", "person", &["a"]),
        entity("Bob", "person", &[]),
        entity("Carol", "person", &[]),
    ])
    .unwrap();
    db.create_relations(&[
        relation("Alice", "Bob", "knows"),
        relation("Alice", "Carol", "knows"),
        relation("Carol", "Alice", "knows"),
    ])
    .unwrap();

    let result = db
        .open_nodes(&strings(&["Carol", "Ghost", "Alice", "Carol"]))
        .unwrap();
    assert_eq!(names(&result), strings(&["Alice", "Carol"]));
    let mut relations = result.relations.clone();
    relations.sort_by(|a, b| a.from.cmp(&b.from));
    assert_eq!(
        relations,
        vec![relation("Alice", "Carol", "knows"), relation("Carol", "Alice", "knows")]
    );

    let none = db.open_nodes(&strings(&["Ghost"])).unwrap();
    assert_eq!(none.entities.len(), 0);
    assert_eq!(none.relations.len(), 0);
}

#[test]
fn opening_no_nodes_gives_an_empty_graph() {
    let (_dir, _path, db) = open_store();
    db.create_entities(&[entity("Alice", "person", &[])]).unwrap();
    let result = db.open_nodes(&[]).unwrap();
    assert_eq!(result.entities.len(), 0);
    assert_eq!(result.relations.len(), 0);
}

#[test]
fn opening_nodes_checks_the_names() {
    let (_dir, _path, db) = open_store();
    let outcome = db.open_nodes(&strings(&["Alice", "a\0b"]));
    assert!(matches!(outcome, Err(StoreError::Validation(_))));
}

#[test]
fn unreadable_stored_observations_are_reported() {
    let (_dir, path, db) = open_store();
    db.create_entities(&[entity("Alice", "person", &["a"]), entity("Bob", "person", &[])])
        .unwrap();
    {
        let direct = rusqlite::Connection::open(&path).unwrap();
        direct
            .execute("UPDATE entities SET observations = 'oops' WHERE name = 'Alice'", ())
            .unwrap();
    }
    let corrupted =
        StoreError::Corruption("Corrupted observations data for entity 'Alice'".to_string());
    assert_eq!(db.read_graph().unwrap_err(), corrupted);
    assert_eq!(db.search_nodes(Some("person")).unwrap_err(), corrupted);
    assert_eq!(db.open_nodes(&strings(&["Alice"])).unwrap_err(), corrupted);
    assert_eq!(
        db.add_observations(&[addition("Alice", &["b"])]).unwrap_err(),
        corrupted
    );
    assert_eq!(db.delete_observations(&[deletion("Alice", &["a"])]), Err(corrupted));
    // The other entity is as readable as before.
    assert_eq!(db.open_nodes(&strings(&["Bob"])).unwrap().entities.len(), 1);
}

#[test]
fn more_names_than_the_engine_binds_is_an_internal_error() {
    let (_dir, _path, db) = open_store();
    db.create_entities(&[entity("n1", "t", &[])]).unwrap();
    let many: Vec<String> = (0..40000).map(|i| format!("n{}", i)).collect();
    let outcome = db.delete_entities(&many);
    assert!(matches!(outcome, Err(StoreError::Internal(_))), "{:?}", outcome);
    assert_eq!(db.read_graph().unwrap().entities.len(), 1);
}

#[test]
fn many_names_are_bound_in_order() {
    let (_dir, _path, db) = open_store();
    let batch: Vec<Entity> = (0..300).map(|i| entity(&format!("n{}", i), "t", &[])).collect();
    assert_eq!(db.create_entities(&batch).unwrap().len(), 300);
    let relations: Vec<Relation> = (0..299)
        .map(|i| relation(&format!("n{}", i), &format!("n{}", i + 1), "next"))
        .collect();
    assert_eq!(db.create_relations(&relations).unwrap().len(), 299);

    let wanted: Vec<String> = (100..200).map(|i| format!("n{}", i)).collect();
    let opened = db.open_nodes(&wanted).unwrap();
    assert_eq!(opened.entities.len(), 100);
    assert_eq!(opened.relations.len(), 99);

    assert_eq!(db.delete_entities(&wanted).unwrap(), 100);
    let graph = db.read_graph().unwrap();
    assert_eq!(graph.entities.len(), 200);
    assert_eq!(graph.relations.len(), 198);
}

#[test]
fn two_stores_on_one_file_see_each_other() {
    let (_dir, path, first) = open_store();
    let second = Database::open(&path).unwrap();
    first.create_entities(&[entity("Alice", "person", &[])]).unwrap();
    assert_eq!(second.read_graph().unwrap().entities.len(), 1);
    assert_eq!(second.create_entities(&[entity("Alice", "person", &[])]).unwrap(), vec![]);
    second.delete_entities(&strings(&["Alice"])).unwrap();
    assert_eq!(first.read_graph().unwrap().entities.len(), 0);
}

#[test]
fn the_path_must_name_a_db_file() {
    let dir = TempDir::new().unwrap();
    assert_eq!(validate_db_path(&dir.path().join("graph.db")), Ok(()));
    assert_eq!(
        validate_db_path(&dir.path().join("graph.txt")),
        Err(StoreError::Validation(
            "Invalid database file extension (must be .db)".to_string()
        ))
    );
    assert_eq!(
        validate_db_path(&dir.path().join("graph.db.bak")),
        Err(StoreError::Validation(
            "Invalid database file extension (must be .db)".to_string()
        ))
    );
    assert_eq!(
        validate_db_path(&dir.path().join("graph")),
        Err(StoreError::Validation(
            "Database path must have .db extension".to_string()
        ))
    );
    assert_eq!(
        validate_db_path(&dir.path().join(".db")),
        Err(StoreError::Validation(
            "Database path must have .db extension".to_string()
        ))
    );
    assert!(matches!(
        Database::open(&dir.path().join("graph.sqlite")),
        Err(StoreError::Validation(_))
    ));
}

#[test]
fn an_observation_given_twice_at_creation_is_stored_once() {
    let (_dir, _path, db) = open_store();
    let given = entity("A", "t", &["x", "x"]);
    assert_eq!(db.create_entities(&[given.clone()]).unwrap(), vec![given]);
    let graph = db.read_graph().unwrap();
    assert_eq!(graph.entities.len(), 1);
    assert_eq!(graph.entities[0].observations, strings(&["x"]));

    db.create_entities(&[entity("B", "t", &["y", "x", "y", "z", "x"])]).unwrap();
    let opened = db.open_nodes(&strings(&["B"])).unwrap();
    assert_eq!(opened.entities[0].observations, strings(&["y", "x", "z"]));

    // What is added later meets a list without repeats.
    let results = db.add_observations(&[addition("A", &["x", "w", "w"])]).unwrap();
    assert_eq!(results[0].added_observations, strings(&["w"]));
    let opened = db.open_nodes(&strings(&["A"])).unwrap();
    assert_eq!(opened.entities[0].observations, strings(&["x", "w"]));
}

use memory_mcp_rs::error::StoreError;
use memory_mcp_rs::graph::{Entity, ObservationDeletion, ObservationInput, Relation};
use memory_mcp_rs::validation::{
    validate_additions, validate_deletions, validate_entities, validate_name, validate_names,
    validate_observation, validate_observations, validate_relations, validate_type,
};

fn invalid(message: &str) -> Result<(), StoreError> {
    Err(StoreError::Validation(message.to_string()))
}

fn entity(name: &str, entity_type: &str, observations: &[&str]) -> Entity {
    Entity {
        name: name.to_string(),
        entity_type: entity_type.to_string(),
        observations: observations.iter().map(|o| o.to_string()).collect(),
    }
}

fn relation(from: &str, to: &str, relation_type: &str) -> Relation {
    Relation {
        from: from.to_string(),
        to: to.to_string(),
        relation_type: relation_type.to_string(),
    }
}

#[test]
fn name_may_not_be_empty() {
    assert_eq!(validate_name("", "Entity name"), invalid("Entity name cannot be empty"));
    assert_eq!(validate_name("", "From entity"), invalid("From entity cannot be empty"));
}

#[test]
fn name_of_256_bytes_is_accepted() {
    assert_eq!(validate_name(&"A".repeat(256), "Entity name"), Ok(()));
}

#[test]
fn name_of_257_bytes_is_too_long() {
    assert_eq!(
        validate_name(&"A".repeat(257), "Entity name"),
        invalid("Entity name too long (max 256 chars)")
    );
}

#[test]
fn name_length_is_counted_in_bytes() {
    // 128 characters of two bytes each fit; 129 do not.
    assert_eq!(validate_name(&"é".repeat(128), "Entity name"), Ok(()));
    assert_eq!(
        validate_name(&"é".repeat(129), "Entity name"),
        invalid("Entity name too long (max 256 chars)")
    );
}

#[test]
fn name_with_control_character_is_rejected() {
    for bad in ["a\0b", "a\nb", "a\tb", "a\u{1f}b", "a\u{7f}b", "a\u{80}b", "a\u{9f}b"] {
        assert_eq!(
            validate_name(bad, "Entity name"),
            invalid("Entity name contains invalid characters"),
            "{:?}",
            bad
        );
    }
}

#[test]
fn name_with_spaces_and_unicode_is_accepted() {
    for good in ["Acme Corp", "Zoë Ångström", "a\u{a0}b", "a\u{20}b", "a\u{7e}b", "日本語", "'; DROP TABLE entities; --"] {
        assert_eq!(validate_name(good, "Entity name"), Ok(()), "{:?}", good);
    }
}

#[test]
fn name_checks_emptiness_before_length_before_characters() {
    let long_and_bad = format!("{}\0", "A".repeat(300));
    assert_eq!(
        validate_name(&long_and_bad, "Entity name"),
        invalid("Entity name too long (max 256 chars)")
    );
}

#[test]
fn type_may_not_be_empty() {
    assert_eq!(validate_type("", "Entity type"), invalid("Entity type cannot be empty"));
}

#[test]
fn type_of_128_bytes_is_accepted_and_129_is_not() {
    assert_eq!(validate_type(&"a".repeat(128), "Entity type"), Ok(()));
    assert_eq!(
        validate_type(&"a".repeat(129), "Entity type"),
        invalid("Entity type too long (max 128 chars)")
    );
}

#[test]
fn type_allows_letters_digits_and_four_marks() {
    for good in ["person", "works_at", "work-relation:knows_v1.0", "A", "z", "0", "9", "-", "_", ".", ":"] {
        assert_eq!(validate_type(good, "Relation type"), Ok(()), "{:?}", good);
    }
}

#[test]
fn type_with_space_is_rejected() {
    let outcome = validate_type("per son", "Entity type");
    assert_eq!(
        outcome,
        invalid("Entity type contains invalid characters (only alphanumeric, -, _, ., : allowed)")
    );
    assert!(outcome.unwrap_err().message().contains("invalid characters"));
}

#[test]
fn type_with_other_characters_is_rejected() {
    for bad in ["a/b", "a b", "a\0", "a,b", "a;b", "a@b", "a`b", "a{b", "a[b", "é", "人"] {
        assert_eq!(
            validate_type(bad, "Entity type"),
            invalid("Entity type contains invalid characters (only alphanumeric, -, _, ., : allowed)"),
            "{:?}",
            bad
        );
    }
}

#[test]
fn observation_of_4096_bytes_is_accepted_and_4097_is_not() {
    assert_eq!(validate_observation(&"A".repeat(4096)), Ok(()));
    assert_eq!(
        validate_observation(&"A".repeat(4097)),
        invalid("Observation too long (max 4096 chars)")
    );
}

#[test]
fn observation_with_null_is_rejected() {
    assert_eq!(validate_observation("a\0b"), invalid("Observation contains null bytes"));
}

#[test]
fn observation_may_be_empty_and_hold_other_control_characters() {
    assert_eq!(validate_observation(""), Ok(()));
    assert_eq!(validate_observation("line one\nline two\ttabbed\u{7f}"), Ok(()));
}

#[test]
fn observations_report_the_first_problem() {
    let list = vec!["fine".to_string(), "a\0".to_string(), "B".repeat(5000)];
    assert_eq!(validate_observations(&list), invalid("Observation contains null bytes"));
    let list = vec!["fine".to_string(), "B".repeat(5000), "a\0".to_string()];
    assert_eq!(
        validate_observations(&list),
        invalid("Observation too long (max 4096 chars)")
    );
    assert_eq!(validate_observations(&vec![]), Ok(()));
}

#[test]
fn entities_are_checked_name_then_type_then_observations() {
    assert_eq!(
        validate_entities(&[entity("", "per son", &["a\0"])]),
        invalid("Entity name cannot be empty")
    );
    assert_eq!(
        validate_entities(&[entity("Alice", "per son", &["a\0"])]),
        invalid("Entity type contains invalid characters (only alphanumeric, -, _, ., : allowed)")
    );
    assert_eq!(
        validate_entities(&[entity("Alice", "person", &["a\0"])]),
        invalid("Observation contains null bytes")
    );
    assert_eq!(validate_entities(&[entity("Alice", "person", &["fine"])]), Ok(()));
    assert_eq!(validate_entities(&[]), Ok(()));
}

#[test]
fn entities_report_the_first_invalid_one() {
    let batch = [
        entity("Alice", "person", &[]),
        entity("Bob", "", &[]),
        entity("", "person", &[]),
    ];
    assert_eq!(validate_entities(&batch), invalid("Entity type cannot be empty"));
}

#[test]
fn relations_are_checked_source_then_target_then_type() {
    assert_eq!(
        validate_relations(&[relation("", "", "")]),
        invalid("From entity cannot be empty")
    );
    assert_eq!(
        validate_relations(&[relation("Alice", "", "")]),
        invalid("To entity cannot be empty")
    );
    assert_eq!(
        validate_relations(&[relation("Alice", "Bob", "")]),
        invalid("Relation type cannot be empty")
    );
    assert_eq!(
        validate_relations(&[relation("Alice", "Bob", "knows"), relation("A\0", "B", "k")]),
        invalid("From entity contains invalid characters")
    );
    assert_eq!(validate_relations(&[relation("Alice", "Bob", "knows")]), Ok(()));
}

#[test]
fn names_report_the_first_invalid_one() {
    let names = vec!["Alice".to_string(), "B".repeat(257), String::new()];
    assert_eq!(validate_names(&names), invalid("Entity name too long (max 256 chars)"));
    assert_eq!(validate_names(&["Alice".to_string()]), Ok(()));
}

#[test]
fn additions_check_the_name_and_the_contents() {
    let bad_name = ObservationInput { entity_name: String::new(), contents: vec!["a\0".to_string()] };
    assert_eq!(validate_additions(&[bad_name]), invalid("Entity name cannot be empty"));
    let bad_content = ObservationInput {
        entity_name: "Alice".to_string(),
        contents: vec!["fine".to_string(), "a\0".to_string()],
    };
    assert_eq!(validate_additions(&[bad_content]), invalid("Observation contains null bytes"));
}

#[test]
fn deletions_check_the_name_only() {
    let odd_text = ObservationDeletion {
        entity_name: "Alice".to_string(),
        observations: vec!["a\0".to_string(), "B".repeat(5000)],
    };
    assert_eq!(validate_deletions(&[odd_text]), Ok(()));
    let bad_name = ObservationDeletion { entity_name: "a\nb".to_string(), observations: vec![] };
    assert_eq!(
        validate_deletions(&[bad_name]),
        invalid("Entity name contains invalid characters")
    );
}

#[test]
fn control_characters_are_those_of_the_standard_library() {
    for code in 0..=0x10ffffu32 {
        if let Some(c) = char::from_u32(code) {
            let name = format!("a{}b", c);
            assert_eq!(
                validate_name(&name, "Entity name").is_err(),
                c.is_control(),
                "U+{:04X}",
                code
            );
        }
    }
}

#[test]
fn type_characters_are_ascii_letters_digits_and_four_marks() {
    for code in 0..=0x10ffffu32 {
        if let Some(c) = char::from_u32(code) {
            let allowed = c.is_ascii_alphanumeric() || "-_.:".contains(c);
            assert_eq!(
                validate_type(&c.to_string(), "Entity type").is_ok(),
                allowed,
                "U+{:04X}",
                code
            );
        }
    }
}

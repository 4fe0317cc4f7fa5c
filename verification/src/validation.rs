//! Checks on names, types and observation texts. Every batch is checked as
//! a whole before the store is touched, so that a malformed input late in a
//! batch cannot leave a partial write behind.

use vstd::prelude::*;
use vstd::utf8::encode_utf8;
use crate::error::{StoreError, StoreErrorView};
use crate::graph::{
    addition_views, deletion_views, entity_views, relation_views, texts, Entity, EntityView,
    ObservationDeletion, ObservationDeletionView, ObservationInput, ObservationInputView,
    Relation, RelationView,
};

verus! {

/// The longest entity or endpoint name, in bytes.
pub const MAX_NAME_LENGTH: usize = 256;

/// The longest entity or relation type, in bytes.
pub const MAX_TYPE_LENGTH: usize = 128;

/// The longest observation, in bytes.
pub const MAX_OBSERVATION_LENGTH: usize = 4096;

/// The length of a text in bytes of UTF-8.
pub open spec fn byte_length(text: Seq<char>) -> nat {
    encode_utf8(text).len()
}

/// A text takes at least one byte and at most four for each of its
/// characters.
pub proof fn lemma_byte_length_bounds(text: Seq<char>)
    ensures
        text.len() <= byte_length(text) <= 4 * text.len(),
    decreases text.len(),
{
    if text.len() > 0 {
        vstd::utf8::char_is_scalar(text[0]);
        lemma_byte_length_bounds(text.drop_first());
    }
}

/// Whether a character is a control character: U+0000 to U+001F and
/// U+007F to U+009F. The null character is one of them.
pub open spec fn is_control(c: char) -> bool {
    c <= '\u{1f}' || ('\u{7f}' <= c && c <= '\u{9f}')
}

/// Whether a character may stand in a type: an ASCII letter or digit, or
/// one of `-`, `_`, `.`, `:`.
pub open spec fn is_type_char(c: char) -> bool {
    ('a' <= c && c <= 'z') || ('A' <= c && c <= 'Z') || ('0' <= c && c <= '9') || c == '-' || c
        == '_' || c == '.' || c == ':'
}

/// Whether a text holds a control character.
pub open spec fn has_control(text: Seq<char>) -> bool {
    exists|i: int| 0 <= i < text.len() && is_control(#[trigger] text[i])
}

/// Whether a text holds a character that may not stand in a type.
pub open spec fn has_non_type_char(text: Seq<char>) -> bool {
    exists|i: int| 0 <= i < text.len() && !is_type_char(#[trigger] text[i])
}

/// Whether a text holds the null character.
pub open spec fn has_null(text: Seq<char>) -> bool {
    exists|i: int| 0 <= i < text.len() && #[trigger] text[i] == '\0'
}

/// What is wrong with a name, if anything: the message of the error, which
/// begins with the label of the field.
pub open spec fn name_problem(name: Seq<char>, field: Seq<char>) -> Option<Seq<char>> {
    if name.len() == 0 {
        Some(field + " cannot be empty"@)
    } else if byte_length(name) > MAX_NAME_LENGTH {
        Some(field + " too long (max 256 chars)"@)
    } else if has_control(name) {
        Some(field + " contains invalid characters"@)
    } else {
        None
    }
}

/// What is wrong with a type, if anything.
pub open spec fn type_problem(text: Seq<char>, field: Seq<char>) -> Option<Seq<char>> {
    if text.len() == 0 {
        Some(field + " cannot be empty"@)
    } else if byte_length(text) > MAX_TYPE_LENGTH {
        Some(field + " too long (max 128 chars)"@)
    } else if has_non_type_char(text) {
        Some(field + " contains invalid characters (only alphanumeric, -, _, ., : allowed)"@)
    } else {
        None
    }
}

/// What is wrong with an observation, if anything. Control characters other
/// than null are allowed: an observation is free prose.
pub open spec fn observation_problem(text: Seq<char>) -> Option<Seq<char>> {
    if byte_length(text) > MAX_OBSERVATION_LENGTH {
        Some("Observation too long (max 4096 chars)"@)
    } else if has_null(text) {
        Some("Observation contains null bytes"@)
    } else {
        None
    }
}

/// The first problem in a list of findings, in list order.
pub open spec fn first_problem(findings: Seq<Option<Seq<char>>>) -> Option<Seq<char>>
    decreases findings.len(),
{
    if findings.len() == 0 {
        None
    } else if findings[0] is Some {
        findings[0]
    } else {
        first_problem(findings.drop_first())
    }
}

/// The first of two findings.
pub open spec fn or_problem(first: Option<Seq<char>>, second: Option<Seq<char>>) -> Option<
    Seq<char>,
> {
    if first is Some {
        first
    } else {
        second
    }
}

/// A list of findings whose first `i` are clean and whose next one is not
/// has that one as its first problem.
pub proof fn lemma_first_problem_at(findings: Seq<Option<Seq<char>>>, i: int)
    requires
        0 <= i < findings.len(),
        findings[i] is Some,
        forall|k: int| 0 <= k < i ==> findings[k] is None,
    ensures
        first_problem(findings) == findings[i],
    decreases i,
{
    if i > 0 {
        lemma_first_problem_at(findings.drop_first(), i - 1);
    }
}

/// A list of clean findings has no first problem.
pub proof fn lemma_first_problem_none(findings: Seq<Option<Seq<char>>>)
    requires
        forall|k: int| 0 <= k < findings.len() ==> findings[k] is None,
    ensures
        first_problem(findings) is None,
    decreases findings.len(),
{
    if findings.len() > 0 {
        lemma_first_problem_none(findings.drop_first());
    }
}

/// A list has a first problem exactly when one of its findings is one, and
/// that problem is then the earliest of them.
pub proof fn lemma_first_problem(findings: Seq<Option<Seq<char>>>)
    ensures
        first_problem(findings) is None <==> forall|k: int|
            0 <= k < findings.len() ==> (#[trigger] findings[k]) is None,
        first_problem(findings) is Some ==> exists|i: int|
            0 <= i < findings.len() && #[trigger] findings[i] == first_problem(findings)
                && forall|k: int| 0 <= k < i ==> (#[trigger] findings[k]) is None,
    decreases findings.len(),
{
    if findings.len() > 0 {
        let rest = findings.drop_first();
        lemma_first_problem(rest);
        if findings[0] is Some {
            assert(findings[0] == first_problem(findings));
        } else {
            assert forall|k: int| 0 < k < findings.len() implies findings[k] == rest[k - 1] by {}
            if first_problem(rest) is Some {
                let i = choose|i: int|
                    0 <= i < rest.len() && #[trigger] rest[i] == first_problem(rest) && forall|
                        k: int,
                    |
                        0 <= k < i ==> (#[trigger] rest[k]) is None;
                assert(findings[i + 1] == first_problem(findings));
                assert forall|k: int| 0 <= k < i + 1 implies (#[trigger] findings[k]) is None by {
                    if k > 0 {
                        assert(rest[k - 1] is None);
                    }
                }
            } else {
                assert forall|k: int| 0 <= k < findings.len() implies (#[trigger] findings[
                    k
                ]) is None by {
                    if k > 0 {
                        assert(rest[k - 1] is None);
                    }
                }
            }
        }
    }
}

/// What is wrong with a list of observations: the problem of the first one
/// that has any.
pub open spec fn observations_problem(observations: Seq<Seq<char>>) -> Option<Seq<char>> {
    first_problem(Seq::new(observations.len(), |i: int| observation_problem(observations[i])))
}

/// What is wrong with an entity: its name is checked first, then its type,
/// then its observations in order.
pub open spec fn entity_problem(entity: EntityView) -> Option<Seq<char>> {
    or_problem(
        name_problem(entity.name, "Entity name"@),
        or_problem(
            type_problem(entity.entity_type, "Entity type"@),
            observations_problem(entity.observations),
        ),
    )
}

/// What is wrong with a batch of entities: the problem of the first one
/// that has any.
pub open spec fn entities_problem(entities: Seq<EntityView>) -> Option<Seq<char>> {
    first_problem(Seq::new(entities.len(), |i: int| entity_problem(entities[i])))
}

/// What is wrong with a relation: its source is checked first, then its
/// target, then its type.
pub open spec fn relation_problem(relation: RelationView) -> Option<Seq<char>> {
    or_problem(
        name_problem(relation.from, "From entity"@),
        or_problem(
            name_problem(relation.to, "To entity"@),
            type_problem(relation.relation_type, "Relation type"@),
        ),
    )
}

/// What is wrong with a batch of relations.
pub open spec fn relations_problem(relations: Seq<RelationView>) -> Option<Seq<char>> {
    first_problem(Seq::new(relations.len(), |i: int| relation_problem(relations[i])))
}

/// What is wrong with a list of entity names.
pub open spec fn names_problem(names: Seq<Seq<char>>) -> Option<Seq<char>> {
    first_problem(Seq::new(names.len(), |i: int| name_problem(names[i], "Entity name"@)))
}

/// What is wrong with a request to add observations: the entity's name is
/// checked first, then the observations in order.
pub open spec fn addition_problem(input: ObservationInputView) -> Option<Seq<char>> {
    or_problem(
        name_problem(input.entity_name, "Entity name"@),
        observations_problem(input.contents),
    )
}

/// What is wrong with a batch of requests to add observations.
pub open spec fn additions_problem(inputs: Seq<ObservationInputView>) -> Option<Seq<char>> {
    first_problem(Seq::new(inputs.len(), |i: int| addition_problem(inputs[i])))
}

/// What is wrong with a batch of requests to remove observations: only the
/// entities' names are checked, since a text to remove is matched, never
/// stored.
pub open spec fn deletions_problem(deletions: Seq<ObservationDeletionView>) -> Option<
    Seq<char>,
> {
    first_problem(
        Seq::new(deletions.len(), |i: int| name_problem(deletions[i].entity_name, "Entity name"@)),
    )
}

/// The outcome that a check owes for a finding: success when there is no
/// problem, else a validation error with the problem as its message.
pub open spec fn reports(outcome: Result<(), StoreError>, finding: Option<Seq<char>>) -> bool {
    match finding {
        Some(message) => outcome matches Err(e) && e@ == StoreErrorView::Validation(message),
        None => outcome is Ok,
    }
}

fn is_control_char(c: char) -> (b: bool)
    ensures
        b == is_control(c),
{
    c <= '\u{1f}' || ('\u{7f}' <= c && c <= '\u{9f}')
}

fn is_allowed_in_type(c: char) -> (b: bool)
    ensures
        b == is_type_char(c),
{
    ('a' <= c && c <= 'z') || ('A' <= c && c <= 'Z') || ('0' <= c && c <= '9') || c == '-' || c
        == '_' || c == '.' || c == ':'
}

fn contains_control(text: &str) -> (found: bool)
    ensures
        found == has_control(text@),
{
    let mut found = false;
    for c in it: text.chars()
        invariant
            it.seq() == text@,
            found == exists|i: int| 0 <= i < it.index() && is_control(#[trigger] text@[i]),
    {
        if is_control_char(c) {
            found = true;
        }
    }
    found
}

fn contains_non_type_char(text: &str) -> (found: bool)
    ensures
        found == has_non_type_char(text@),
{
    let mut found = false;
    for c in it: text.chars()
        invariant
            it.seq() == text@,
            found == exists|i: int| 0 <= i < it.index() && !is_type_char(#[trigger] text@[i]),
    {
        if !is_allowed_in_type(c) {
            found = true;
        }
    }
    found
}

fn contains_null(text: &str) -> (found: bool)
    ensures
        found == has_null(text@),
{
    let mut found = false;
    for c in it: text.chars()
        invariant
            it.seq() == text@,
            found == exists|i: int| 0 <= i < it.index() && #[trigger] text@[i] == '\0',
    {
        if c == '\0' {
            found = true;
        }
    }
    found
}

fn byte_len(text: &str) -> (n: usize)
    ensures
        n == byte_length(text@),
{
    text.as_bytes().len()
}

fn rejected(field: &str, complaint: &str) -> (outcome: Result<(), StoreError>)
    ensures
        outcome matches Err(e) && e@ == StoreErrorView::Validation(field@ + complaint@),
{
    Err(StoreError::Validation(String::from_str(field).concat(complaint)))
}

/// Checks the name of an entity or of a relation's endpoint: not empty, at
/// most 256 bytes, no control character. `field` labels the input in the
/// error's message.
pub fn validate_name(name: &str, field: &str) -> (outcome: Result<(), StoreError>)
    ensures
        reports(outcome, name_problem(name@, field@)),
{
    if name.is_empty() {
        return rejected(field, " cannot be empty");
    }
    if byte_len(name) > MAX_NAME_LENGTH {
        return rejected(field, " too long (max 256 chars)");
    }
    if contains_control(name) {
        return rejected(field, " contains invalid characters");
    }
    Ok(())
}

/// Checks an entity type or a relation type: not empty, at most 128 bytes,
/// only ASCII letters and digits and `-`, `_`, `.`, `:`.
pub fn validate_type(type_str: &str, field: &str) -> (outcome: Result<(), StoreError>)
    ensures
        reports(outcome, type_problem(type_str@, field@)),
{
    if type_str.is_empty() {
        return rejected(field, " cannot be empty");
    }
    if byte_len(type_str) > MAX_TYPE_LENGTH {
        return rejected(field, " too long (max 128 chars)");
    }
    if contains_non_type_char(type_str) {
        return rejected(
            field,
            " contains invalid characters (only alphanumeric, -, _, ., : allowed)",
        );
    }
    Ok(())
}

/// Checks an observation: at most 4096 bytes, no null character.
pub fn validate_observation(obs: &str) -> (outcome: Result<(), StoreError>)
    ensures
        reports(outcome, observation_problem(obs@)),
{
    if byte_len(obs) > MAX_OBSERVATION_LENGTH {
        return Err(
            StoreError::Validation(String::from_str("Observation too long (max 4096 chars)")),
        );
    }
    if contains_null(obs) {
        return Err(StoreError::Validation(String::from_str("Observation contains null bytes")));
    }
    Ok(())
}

/// Checks a list of observations, in order.
pub fn validate_observations(observations: &Vec<String>) -> (outcome: Result<(), StoreError>)
    ensures
        reports(outcome, observations_problem(texts(observations@))),
{
    let ghost findings = Seq::new(
        observations@.len(),
        |i: int| observation_problem(texts(observations@)[i]),
    );
    let mut i: usize = 0;
    while i < observations.len()
        invariant
            i <= observations.len(),
            findings == Seq::new(
                observations@.len(),
                |i: int| observation_problem(texts(observations@)[i]),
            ),
            forall|k: int| 0 <= k < i ==> findings[k] is None,
        decreases observations.len() - i,
    {
        let outcome = validate_observation(observations[i].as_str());
        if outcome.is_err() {
            proof {
                lemma_first_problem_at(findings, i as int);
            }
            return outcome;
        }
        i += 1;
    }
    proof {
        lemma_first_problem_none(findings);
    }
    Ok(())
}

fn validate_entity(entity: &Entity) -> (outcome: Result<(), StoreError>)
    ensures
        reports(outcome, entity_problem(entity@)),
{
    let named = validate_name(entity.name.as_str(), "Entity name");
    if named.is_err() {
        return named;
    }
    let typed = validate_type(entity.entity_type.as_str(), "Entity type");
    if typed.is_err() {
        return typed;
    }
    validate_observations(&entity.observations)
}

/// Checks a batch of entities, in order; within an entity the name, then
/// the type, then the observations.
pub fn validate_entities(entities: &[Entity]) -> (outcome: Result<(), StoreError>)
    ensures
        reports(outcome, entities_problem(entity_views(entities@))),
{
    let ghost findings = Seq::new(
        entities@.len(),
        |i: int| entity_problem(entity_views(entities@)[i]),
    );
    let mut i: usize = 0;
    while i < entities.len()
        invariant
            i <= entities.len(),
            findings == Seq::new(
                entities@.len(),
                |i: int| entity_problem(entity_views(entities@)[i]),
            ),
            forall|k: int| 0 <= k < i ==> findings[k] is None,
        decreases entities.len() - i,
    {
        let outcome = validate_entity(&entities[i]);
        if outcome.is_err() {
            proof {
                lemma_first_problem_at(findings, i as int);
            }
            return outcome;
        }
        i += 1;
    }
    proof {
        lemma_first_problem_none(findings);
    }
    Ok(())
}

fn validate_relation(relation: &Relation) -> (outcome: Result<(), StoreError>)
    ensures
        reports(outcome, relation_problem(relation@)),
{
    let source = validate_name(relation.from.as_str(), "From entity");
    if source.is_err() {
        return source;
    }
    let target = validate_name(relation.to.as_str(), "To entity");
    if target.is_err() {
        return target;
    }
    validate_type(relation.relation_type.as_str(), "Relation type")
}

/// Checks a batch of relations, in order; within a relation the source,
/// then the target, then the type.
pub fn validate_relations(relations: &[Relation]) -> (outcome: Result<(), StoreError>)
    ensures
        reports(outcome, relations_problem(relation_views(relations@))),
{
    let ghost findings = Seq::new(
        relations@.len(),
        |i: int| relation_problem(relation_views(relations@)[i]),
    );
    let mut i: usize = 0;
    while i < relations.len()
        invariant
            i <= relations.len(),
            findings == Seq::new(
                relations@.len(),
                |i: int| relation_problem(relation_views(relations@)[i]),
            ),
            forall|k: int| 0 <= k < i ==> findings[k] is None,
        decreases relations.len() - i,
    {
        let outcome = validate_relation(&relations[i]);
        if outcome.is_err() {
            proof {
                lemma_first_problem_at(findings, i as int);
            }
            return outcome;
        }
        i += 1;
    }
    proof {
        lemma_first_problem_none(findings);
    }
    Ok(())
}

/// Checks a list of entity names, in order.
pub fn validate_names(names: &[String]) -> (outcome: Result<(), StoreError>)
    ensures
        reports(outcome, names_problem(texts(names@))),
{
    let ghost findings = Seq::new(
        names@.len(),
        |i: int| name_problem(texts(names@)[i], "Entity name"@),
    );
    let mut i: usize = 0;
    while i < names.len()
        invariant
            i <= names.len(),
            findings == Seq::new(
                names@.len(),
                |i: int| name_problem(texts(names@)[i], "Entity name"@),
            ),
            forall|k: int| 0 <= k < i ==> findings[k] is None,
        decreases names.len() - i,
    {
        let outcome = validate_name(names[i].as_str(), "Entity name");
        if outcome.is_err() {
            proof {
                lemma_first_problem_at(findings, i as int);
            }
            return outcome;
        }
        i += 1;
    }
    proof {
        lemma_first_problem_none(findings);
    }
    Ok(())
}

fn validate_addition(input: &ObservationInput) -> (outcome: Result<(), StoreError>)
    ensures
        reports(outcome, addition_problem(input@)),
{
    let named = validate_name(input.entity_name.as_str(), "Entity name");
    if named.is_err() {
        return named;
    }
    validate_observations(&input.contents)
}

/// Checks a batch of requests to add observations, in order.
pub fn validate_additions(inputs: &[ObservationInput]) -> (outcome: Result<(), StoreError>)
    ensures
        reports(outcome, additions_problem(addition_views(inputs@))),
{
    let ghost findings = Seq::new(
        inputs@.len(),
        |i: int| addition_problem(addition_views(inputs@)[i]),
    );
    let mut i: usize = 0;
    while i < inputs.len()
        invariant
            i <= inputs.len(),
            findings == Seq::new(
                inputs@.len(),
                |i: int| addition_problem(addition_views(inputs@)[i]),
            ),
            forall|k: int| 0 <= k < i ==> findings[k] is None,
        decreases inputs.len() - i,
    {
        let outcome = validate_addition(&inputs[i]);
        if outcome.is_err() {
            proof {
                lemma_first_problem_at(findings, i as int);
            }
            return outcome;
        }
        i += 1;
    }
    proof {
        lemma_first_problem_none(findings);
    }
    Ok(())
}

/// Checks a batch of requests to remove observations, in order.
pub fn validate_deletions(deletions: &[ObservationDeletion]) -> (outcome: Result<
    (),
    StoreError,
>)
    ensures
        reports(outcome, deletions_problem(deletion_views(deletions@))),
{
    let ghost findings = Seq::new(
        deletions@.len(),
        |i: int| name_problem(deletion_views(deletions@)[i].entity_name, "Entity name"@),
    );
    let mut i: usize = 0;
    while i < deletions.len()
        invariant
            i <= deletions.len(),
            findings == Seq::new(
                deletions@.len(),
                |i: int| name_problem(deletion_views(deletions@)[i].entity_name, "Entity name"@),
            ),
            forall|k: int| 0 <= k < i ==> findings[k] is None,
        decreases deletions.len() - i,
    {
        let outcome = validate_name(deletions[i].entity_name.as_str(), "Entity name");
        if outcome.is_err() {
            proof {
                lemma_first_problem_at(findings, i as int);
            }
            return outcome;
        }
        i += 1;
    }
    proof {
        lemma_first_problem_none(findings);
    }
    Ok(())
}

} // verus!

//! The records of the knowledge graph and their mathematical views.

use vstd::prelude::*;

verus! {

/// The texts of a list of strings, each by its characters.
pub open spec fn texts(items: Seq<String>) -> Seq<Seq<char>> {
    Seq::new(items.len(), |i: int| items[i]@)
}

/// Copies a list of strings.
pub fn copy_strings(items: &Vec<String>) -> (copy: Vec<String>)
    ensures
        texts(copy@) == texts(items@),
{
    let mut copy: Vec<String> = Vec::new();
    let mut i: usize = 0;
    while i < items.len()
        invariant
            i <= items.len(),
            copy.len() == i,
            forall|k: int| 0 <= k < i ==> copy[k]@ == items[k]@,
        decreases items.len() - i,
    {
        copy.push(items[i].clone());
        i += 1;
    }
    copy
}

/// A named node of the graph.
#[derive(Debug, PartialEq, Eq)]
pub struct Entity {
    /// The unique name, which identifies the entity.
    pub name: String,
    /// A short classifying tag (person, organization, ...).
    pub entity_type: String,
    /// The facts recorded about the entity, in the order they were added.
    pub observations: Vec<String>,
}

/// An entity as a plain value.
pub struct EntityView {
    pub name: Seq<char>,
    pub entity_type: Seq<char>,
    pub observations: Seq<Seq<char>>,
}

impl View for Entity {
    type V = EntityView;

    open spec fn view(&self) -> EntityView {
        EntityView {
            name: self.name@,
            entity_type: self.entity_type@,
            observations: texts(self.observations@),
        }
    }
}

impl Clone for Entity {
    fn clone(&self) -> (copy: Self)
        ensures
            copy@ == self@,
    {
        Entity {
            name: self.name.clone(),
            entity_type: self.entity_type.clone(),
            observations: copy_strings(&self.observations),
        }
    }
}

/// A directed, typed edge between two entities.
#[derive(Debug, PartialEq, Eq)]
pub struct Relation {
    /// The name of the source entity.
    pub from: String,
    /// The name of the target entity.
    pub to: String,
    /// The kind of edge (works_at, knows, ...).
    pub relation_type: String,
}

/// A relation as a plain value.
pub struct RelationView {
    pub from: Seq<char>,
    pub to: Seq<char>,
    pub relation_type: Seq<char>,
}

impl View for Relation {
    type V = RelationView;

    open spec fn view(&self) -> RelationView {
        RelationView { from: self.from@, to: self.to@, relation_type: self.relation_type@ }
    }
}

impl Clone for Relation {
    fn clone(&self) -> (copy: Self)
        ensures
            copy@ == self@,
    {
        Relation {
            from: self.from.clone(),
            to: self.to.clone(),
            relation_type: self.relation_type.clone(),
        }
    }
}

/// The views of a list of entities.
pub open spec fn entity_views(entities: Seq<Entity>) -> Seq<EntityView> {
    Seq::new(entities.len(), |i: int| entities[i]@)
}

/// The views of a list of relations.
pub open spec fn relation_views(relations: Seq<Relation>) -> Seq<RelationView> {
    Seq::new(relations.len(), |i: int| relations[i]@)
}

/// A snapshot of the graph, or of a part of it: entities and the relations
/// between them.
#[derive(Debug, PartialEq, Eq)]
pub struct KnowledgeGraph {
    pub entities: Vec<Entity>,
    pub relations: Vec<Relation>,
}

/// A snapshot as a plain value.
pub struct GraphView {
    pub entities: Seq<EntityView>,
    pub relations: Seq<RelationView>,
}

impl View for KnowledgeGraph {
    type V = GraphView;

    open spec fn view(&self) -> GraphView {
        GraphView {
            entities: entity_views(self.entities@),
            relations: relation_views(self.relations@),
        }
    }
}

impl Clone for KnowledgeGraph {
    fn clone(&self) -> (copy: Self)
        ensures
            copy@ == self@,
    {
        let mut entities: Vec<Entity> = Vec::new();
        let mut i: usize = 0;
        while i < self.entities.len()
            invariant
                i <= self.entities.len(),
                entities.len() == i,
                forall|k: int| 0 <= k < i ==> entities[k]@ == self.entities[k]@,
            decreases self.entities.len() - i,
        {
            entities.push(self.entities[i].clone());
            i += 1;
        }
        let mut relations: Vec<Relation> = Vec::new();
        let mut k: usize = 0;
        while k < self.relations.len()
            invariant
                k <= self.relations.len(),
                relations.len() == k,
                forall|j: int| 0 <= j < k ==> relations[j]@ == self.relations[j]@,
            decreases self.relations.len() - k,
        {
            relations.push(self.relations[k].clone());
            k += 1;
        }
        assert(entity_views(entities@) =~= entity_views(self.entities@));
        assert(relation_views(relations@) =~= relation_views(self.relations@));
        KnowledgeGraph { entities, relations }
    }
}

impl Default for KnowledgeGraph {
    fn default() -> (graph: Self)
        ensures
            graph@.entities.len() == 0,
            graph@.relations.len() == 0,
    {
        KnowledgeGraph { entities: Vec::new(), relations: Vec::new() }
    }
}

/// A request to add observations to one entity.
#[derive(Debug, PartialEq, Eq)]
pub struct ObservationInput {
    pub entity_name: String,
    pub contents: Vec<String>,
}

/// An addition request as a plain value.
pub struct ObservationInputView {
    pub entity_name: Seq<char>,
    pub contents: Seq<Seq<char>>,
}

impl View for ObservationInput {
    type V = ObservationInputView;

    open spec fn view(&self) -> ObservationInputView {
        ObservationInputView { entity_name: self.entity_name@, contents: texts(self.contents@) }
    }
}

impl Clone for ObservationInput {
    fn clone(&self) -> (copy: Self)
        ensures
            copy@ == self@,
    {
        ObservationInput {
            entity_name: self.entity_name.clone(),
            contents: copy_strings(&self.contents),
        }
    }
}

/// The observations that an addition request really added to its entity.
#[derive(Debug, PartialEq, Eq)]
pub struct ObservationResult {
    pub entity_name: String,
    pub added_observations: Vec<String>,
}

/// An addition result as a plain value.
pub struct ObservationResultView {
    pub entity_name: Seq<char>,
    pub added_observations: Seq<Seq<char>>,
}

impl View for ObservationResult {
    type V = ObservationResultView;

    open spec fn view(&self) -> ObservationResultView {
        ObservationResultView {
            entity_name: self.entity_name@,
            added_observations: texts(self.added_observations@),
        }
    }
}

impl Clone for ObservationResult {
    fn clone(&self) -> (copy: Self)
        ensures
            copy@ == self@,
    {
        ObservationResult {
            entity_name: self.entity_name.clone(),
            added_observations: copy_strings(&self.added_observations),
        }
    }
}

/// A request to remove observations from one entity.
#[derive(Debug, PartialEq, Eq)]
pub struct ObservationDeletion {
    pub entity_name: String,
    pub observations: Vec<String>,
}

/// A removal request as a plain value.
pub struct ObservationDeletionView {
    pub entity_name: Seq<char>,
    pub observations: Seq<Seq<char>>,
}

impl View for ObservationDeletion {
    type V = ObservationDeletionView;

    open spec fn view(&self) -> ObservationDeletionView {
        ObservationDeletionView {
            entity_name: self.entity_name@,
            observations: texts(self.observations@),
        }
    }
}

impl Clone for ObservationDeletion {
    fn clone(&self) -> (copy: Self)
        ensures
            copy@ == self@,
    {
        ObservationDeletion {
            entity_name: self.entity_name.clone(),
            observations: copy_strings(&self.observations),
        }
    }
}

/// The views of a list of requests to add observations.
pub open spec fn addition_views(inputs: Seq<ObservationInput>) -> Seq<ObservationInputView> {
    Seq::new(inputs.len(), |i: int| inputs[i]@)
}

/// The views of a list of addition results.
pub open spec fn result_views(results: Seq<ObservationResult>) -> Seq<ObservationResultView> {
    Seq::new(results.len(), |i: int| results[i]@)
}

/// The views of a list of requests to remove observations.
pub open spec fn deletion_views(deletions: Seq<ObservationDeletion>) -> Seq<
    ObservationDeletionView,
> {
    Seq::new(deletions.len(), |i: int| deletions[i]@)
}

} // verus!

//! The conceptual schema: entities and relations, the check that makes a
//! list of declarations into a schema, and the questions that a schema
//! answers.

use crate::ast::{
    clone_attributes, clone_members, Attribute, AttributeType, AttributeView, Expr, ExprView,
    Ident, RelationCardinality, RelationMember, RelationMemberView, RelationOptionality,
};
use crate::parser::{declarations_of, read_declarations, ConsumeError, ParserExpr};
use crate::dot::{
    AListItem, AListItemView, AttributeList, AttributeListView, AttributeStatement,
    AttributeStatementType, AttributeStatementView, EdgeRHS, EdgeRHSView, EdgeStatement,
    EdgeStatementView, EdgeType, Graph, GraphType, GraphView, NodeStatement, NodeStatementView,
    Statement, StatementView,
};
use crate::views::{
    first_position, lemma_deep_view_append, lemma_deep_view_push, lemma_first_position,
    lemma_first_position_found, lemma_no_duplicates_by_prefix,
};
use vstd::hash_set::StringHashSet;
use vstd::prelude::*;
use vstd::string::StringExecFns;

verus! {

/// An entity: a name and the attributes that it owns.
#[derive(Debug, PartialEq, Eq)]
pub struct Entity {
    name: Ident,
    attributes: Vec<Attribute>,
}

/// What an [`Entity`] holds.
pub struct EntityView {
    pub name: Seq<char>,
    pub attributes: Seq<AttributeView>,
}

impl DeepView for Entity {
    type V = EntityView;

    closed spec fn deep_view(&self) -> EntityView {
        EntityView { name: self.name@, attributes: self.attributes.deep_view() }
    }
}

impl Clone for Entity {
    fn clone(&self) -> (copy: Self)
        ensures
            copy.deep_view() == self.deep_view(),
    {
        let copy = Entity { name: self.name.clone(), attributes: clone_attributes(&self.attributes) };
        assert(copy.attributes.deep_view() =~= self.attributes.deep_view());
        copy
    }
}

/// A relation: a name, a label to show in its place where it has one, the
/// members that take part in it, and the attributes that it owns.
#[derive(Debug, PartialEq, Eq)]
pub struct Relation {
    name: Ident,
    label: Option<String>,
    members: Vec<RelationMember>,
    attributes: Vec<Attribute>,
}

/// What a [`Relation`] holds.
pub struct RelationView {
    pub name: Seq<char>,
    pub label: Option<Seq<char>>,
    pub members: Seq<RelationMemberView>,
    pub attributes: Seq<AttributeView>,
}

impl DeepView for Relation {
    type V = RelationView;

    closed spec fn deep_view(&self) -> RelationView {
        RelationView {
            name: self.name@,
            label: self.label.deep_view(),
            members: self.members.deep_view(),
            attributes: self.attributes.deep_view(),
        }
    }
}

impl Clone for Relation {
    fn clone(&self) -> (copy: Self)
        ensures
            copy.deep_view() == self.deep_view(),
    {
        let copy = Relation {
            name: self.name.clone(),
            label: match &self.label {
                Some(label) => Some(label.clone()),
                None => None,
            },
            members: clone_members(&self.members),
            attributes: clone_attributes(&self.attributes),
        };
        assert(copy.members.deep_view() =~= self.members.deep_view());
        assert(copy.attributes.deep_view() =~= self.attributes.deep_view());
        copy
    }
}

/// A fault in a list of declarations.
#[derive(Debug, PartialEq, Eq)]
pub enum ERDError {
    /// The name stands for more than one entity or relation.
    DuplicateIdent(Ident),
    /// The attribute, named first, occurs more than once in the entity.
    DuplicateAttributeInEntity(Ident, Ident),
    /// The attribute, named first, occurs more than once in the relation.
    DuplicateAttributeInRelation(Ident, Ident),
    /// The entity, named first, is a member of the relation and is declared
    /// nowhere.
    UnknownEntityInRelation(Ident, Ident),
}

/// What an [`ERDError`] holds.
pub enum ERDErrorView {
    DuplicateIdent(Seq<char>),
    DuplicateAttributeInEntity(Seq<char>, Seq<char>),
    DuplicateAttributeInRelation(Seq<char>, Seq<char>),
    UnknownEntityInRelation(Seq<char>, Seq<char>),
}

impl DeepView for ERDError {
    type V = ERDErrorView;

    open spec fn deep_view(&self) -> ERDErrorView {
        match self {
            ERDError::DuplicateIdent(name) => ERDErrorView::DuplicateIdent(name@),
            ERDError::DuplicateAttributeInEntity(attribute, entity) => {
                ERDErrorView::DuplicateAttributeInEntity(attribute@, entity@)
            },
            ERDError::DuplicateAttributeInRelation(attribute, relation) => {
                ERDErrorView::DuplicateAttributeInRelation(attribute@, relation@)
            },
            ERDError::UnknownEntityInRelation(entity, relation) => {
                ERDErrorView::UnknownEntityInRelation(entity@, relation@)
            },
        }
    }
}

impl Clone for ERDError {
    fn clone(&self) -> (copy: Self)
        ensures
            copy == *self,
    {
        match self {
            ERDError::DuplicateIdent(name) => ERDError::DuplicateIdent(name.clone()),
            ERDError::DuplicateAttributeInEntity(attribute, entity) => {
                ERDError::DuplicateAttributeInEntity(attribute.clone(), entity.clone())
            },
            ERDError::DuplicateAttributeInRelation(attribute, relation) => {
                ERDError::DuplicateAttributeInRelation(attribute.clone(), relation.clone())
            },
            ERDError::UnknownEntityInRelation(entity, relation) => {
                ERDError::UnknownEntityInRelation(entity.clone(), relation.clone())
            },
        }
    }
}

impl ERDErrorView {
    /// The sentence that tells a reader of the fault.
    pub open spec fn message(self) -> Seq<char> {
        match self {
            ERDErrorView::DuplicateIdent(name) => "Name "@ + name + " is used multiple times."@,
            ERDErrorView::DuplicateAttributeInEntity(attribute, entity) => {
                "Multiple attributes named "@ + attribute + " in entity "@ + entity + "."@
            },
            ERDErrorView::DuplicateAttributeInRelation(attribute, relation) => {
                "Multiple attributes named "@ + attribute + " in relation "@ + relation + "."@
            },
            ERDErrorView::UnknownEntityInRelation(entity, relation) => {
                "Unknown entity "@ + entity + " in relation "@ + relation + "."@
            },
        }
    }
}

impl ERDError {
    /// The sentence that tells a reader of the fault.
    pub fn to_string(&self) -> (text: String)
        ensures
            text@ == self.deep_view().message(),
    {
        match self {
            ERDError::DuplicateIdent(name) => {
                let mut text = String::from_str("Name ");
                text.append(name.0.as_str());
                text.append(" is used multiple times.");
                text
            },
            ERDError::DuplicateAttributeInEntity(attribute, entity) => {
                let mut text = String::from_str("Multiple attributes named ");
                text.append(attribute.0.as_str());
                text.append(" in entity ");
                text.append(entity.0.as_str());
                text.append(".");
                text
            },
            ERDError::DuplicateAttributeInRelation(attribute, relation) => {
                let mut text = String::from_str("Multiple attributes named ");
                text.append(attribute.0.as_str());
                text.append(" in relation ");
                text.append(relation.0.as_str());
                text.append(".");
                text
            },
            ERDError::UnknownEntityInRelation(entity, relation) => {
                let mut text = String::from_str("Unknown entity ");
                text.append(entity.0.as_str());
                text.append(" in relation ");
                text.append(relation.0.as_str());
                text.append(".");
                text
            },
        }
    }
}

/// The names of `attributes`, in their order.
pub open spec fn attribute_names(attributes: Seq<AttributeView>) -> Seq<Seq<char>> {
    attributes.map_values(|a: AttributeView| a.ident)
}

/// The key attributes among `attributes`, in their order.
pub open spec fn key_attributes(attributes: Seq<AttributeView>) -> Seq<AttributeView> {
    attributes.filter(|a: AttributeView| a.kind == AttributeType::Key)
}

/// The keys of a list that grows by one attribute grow by that attribute
/// where it is a key, and stay as they are where it is none.
pub proof fn lemma_key_attributes_push(attributes: Seq<AttributeView>, last: AttributeView)
    ensures
        key_attributes(attributes.push(last)) == if last.kind == AttributeType::Key {
            key_attributes(attributes).push(last)
        } else {
            key_attributes(attributes)
        },
{
    reveal(Seq::filter);
    assert(attributes.push(last).drop_last() =~= attributes);
}

/// The report of an attribute that bears a name for the second time.
pub open spec fn repeated_attribute(attribute: Seq<char>, owner: Seq<char>, in_relation: bool)
    -> ERDErrorView {
    if in_relation {
        ERDErrorView::DuplicateAttributeInRelation(attribute, owner)
    } else {
        ERDErrorView::DuplicateAttributeInEntity(attribute, owner)
    }
}

/// The faults among the first `n` of the attributes of one owner: a report
/// for each whose name an earlier attribute of the list bears, in the order
/// of the list.
pub open spec fn attribute_errors(
    attributes: Seq<AttributeView>,
    owner: Seq<char>,
    in_relation: bool,
    n: nat,
) -> Seq<ERDErrorView>
    decreases n,
{
    if n == 0 {
        Seq::empty()
    } else {
        let before = attribute_errors(attributes, owner, in_relation, (n - 1) as nat);
        let ident = attributes[n - 1].ident;
        if attribute_names(attributes).take(n - 1).contains(ident) {
            before.push(repeated_attribute(ident, owner, in_relation))
        } else {
            before
        }
    }
}

/// A conceptual schema as a value: entities and relations in the order of
/// their declarations.
pub struct ERDView {
    pub entities: Seq<EntityView>,
    pub relations: Seq<RelationView>,
}

impl ERDView {
    /// The names of the entities, in their order.
    pub open spec fn entity_names(self) -> Seq<Seq<char>> {
        self.entities.map_values(|e: EntityView| e.name)
    }

    /// The names of the relations, in their order.
    pub open spec fn relation_names(self) -> Seq<Seq<char>> {
        self.relations.map_values(|r: RelationView| r.name)
    }

    /// The names of the entities, then those of the relations.
    pub open spec fn idents(self) -> Seq<Seq<char>> {
        self.entity_names() + self.relation_names()
    }

    /// Whether an entity bears the name.
    pub open spec fn has_entity(self, name: Seq<char>) -> bool {
        self.entity_names().contains(name)
    }

    /// Whether a relation bears the name.
    pub open spec fn has_relation(self, name: Seq<char>) -> bool {
        self.relation_names().contains(name)
    }

    /// The first entity that bears the name.
    pub open spec fn find_entity(self, name: Seq<char>) -> Option<EntityView> {
        match first_position(self.entity_names(), name) {
            Some(i) => Some(self.entities[i]),
            None => None,
        }
    }

    /// The first relation that bears the name.
    pub open spec fn find_relation(self, name: Seq<char>) -> Option<RelationView> {
        match first_position(self.relation_names(), name) {
            Some(i) => Some(self.relations[i]),
            None => None,
        }
    }

    /// The attributes of the entity of that name; none where there is no
    /// such entity.
    pub open spec fn entity_attributes(self, name: Seq<char>) -> Seq<AttributeView> {
        match self.find_entity(name) {
            Some(entity) => entity.attributes,
            None => Seq::empty(),
        }
    }

    /// The attributes of the relation of that name; none where there is no
    /// such relation.
    pub open spec fn relation_attributes(self, name: Seq<char>) -> Seq<AttributeView> {
        match self.find_relation(name) {
            Some(relation) => relation.attributes,
            None => Seq::empty(),
        }
    }

    /// The attributes of the entity of that name, else of the relation of
    /// that name, else none.
    pub open spec fn attributes_of(self, name: Seq<char>) -> Seq<AttributeView> {
        match self.find_entity(name) {
            Some(entity) => entity.attributes,
            None => self.relation_attributes(name),
        }
    }

    /// The key attributes of the entity of that name.
    pub open spec fn entity_keys(self, name: Seq<char>) -> Seq<AttributeView> {
        key_attributes(self.entity_attributes(name))
    }

    /// What holds of every schema: no two of its entities and relations
    /// share a name, every member of a relation is an entity of the schema,
    /// and no entity or relation has two attributes of one name.
    pub open spec fn well_formed(self) -> bool {
        &&& self.entity_names().no_duplicates()
        &&& self.relation_names().no_duplicates()
        &&& forall|i: int|
            0 <= i < self.relations.len() ==> !self.has_entity(#[trigger] self.relations[i].name)
        &&& forall|i: int, j: int|
            0 <= i < self.relations.len() && 0 <= j < self.relations[i].members.len()
                ==> self.has_entity(#[trigger] self.relations[i].members[j].entity)
        &&& forall|i: int|
            0 <= i < self.entities.len() ==> attribute_names(
                #[trigger] self.entities[i].attributes,
            ).no_duplicates()
        &&& forall|i: int|
            0 <= i < self.relations.len() ==> attribute_names(
                #[trigger] self.relations[i].attributes,
            ).no_duplicates()
    }

    /// The faults of the entity at place `i`: a report of its name where an
    /// earlier entity bears it, then the faults among its attributes.
    pub open spec fn entity_report(self, i: int) -> Seq<ERDErrorView> {
        let entity = self.entities[i];
        let named = if self.entity_names().take(i).contains(entity.name) {
            seq![ERDErrorView::DuplicateIdent(entity.name)]
        } else {
            Seq::empty()
        };
        named + attribute_errors(entity.attributes, entity.name, false, entity.attributes.len())
    }

    /// The faults of the first `n` entities, in their order.
    pub open spec fn entity_errors(self, n: nat) -> Seq<ERDErrorView>
        decreases n,
    {
        if n == 0 {
            Seq::empty()
        } else {
            self.entity_errors((n - 1) as nat) + self.entity_report(n - 1)
        }
    }

    /// The faults among the first `n` members of `relation`: a report for
    /// each whose entity the schema does not declare.
    pub open spec fn member_errors(self, relation: RelationView, n: nat) -> Seq<ERDErrorView>
        decreases n,
    {
        if n == 0 {
            Seq::empty()
        } else {
            let before = self.member_errors(relation, (n - 1) as nat);
            let entity = relation.members[n - 1].entity;
            if self.has_entity(entity) {
                before
            } else {
                before.push(ERDErrorView::UnknownEntityInRelation(entity, relation.name))
            }
        }
    }

    /// The faults of the relation at place `i`: a report of its name where
    /// an entity or an earlier relation bears it, then the faults among its
    /// members, then those among its attributes.
    pub open spec fn relation_report(self, i: int) -> Seq<ERDErrorView> {
        let relation = self.relations[i];
        let named = if self.has_entity(relation.name) || self.relation_names().take(i).contains(
            relation.name,
        ) {
            seq![ERDErrorView::DuplicateIdent(relation.name)]
        } else {
            Seq::empty()
        };
        named + self.member_errors(relation, relation.members.len()) + attribute_errors(
            relation.attributes,
            relation.name,
            true,
            relation.attributes.len(),
        )
    }

    /// The faults of the first `n` relations, in their order.
    pub open spec fn relation_errors(self, n: nat) -> Seq<ERDErrorView>
        decreases n,
    {
        if n == 0 {
            Seq::empty()
        } else {
            self.relation_errors((n - 1) as nat) + self.relation_report(n - 1)
        }
    }

    /// All faults of the declarations: those of the entities in their
    /// order, then those of the relations in theirs. Every fault is
    /// reported; none hides another.
    pub open spec fn errors(self) -> Seq<ERDErrorView> {
        self.entity_errors(self.entities.len()) + self.relation_errors(self.relations.len())
    }
}

/// The entities that a list of declarations declares, in its order.
pub open spec fn declared_entities(declarations: Seq<ExprView>) -> Seq<EntityView>
    decreases declarations.len(),
{
    if declarations.len() == 0 {
        Seq::empty()
    } else {
        let before = declared_entities(declarations.drop_last());
        match declarations.last() {
            ExprView::Entity(name, attributes) => before.push(EntityView { name, attributes }),
            _ => before,
        }
    }
}

/// The relations that a list of declarations declares, in its order.
pub open spec fn declared_relations(declarations: Seq<ExprView>) -> Seq<RelationView>
    decreases declarations.len(),
{
    if declarations.len() == 0 {
        Seq::empty()
    } else {
        let before = declared_relations(declarations.drop_last());
        match declarations.last() {
            ExprView::Relation(name, label, members, attributes) => before.push(
                RelationView { name, label, members, attributes },
            ),
            _ => before,
        }
    }
}

/// What a list of declarations declares: its entities and its relations.
/// The declarations of tables play no part in it.
pub open spec fn declared_schema(declarations: Seq<ExprView>) -> ERDView {
    ERDView {
        entities: declared_entities(declarations),
        relations: declared_relations(declarations),
    }
}

/// Adds to `errors` the faults among the attributes of one owner.
fn check_attributes(
    attributes: &Vec<Attribute>,
    owner: &Ident,
    in_relation: bool,
    errors: &mut Vec<ERDError>,
)
    ensures
        final(errors).deep_view() == old(errors).deep_view() + attribute_errors(
            attributes.deep_view(),
            owner@,
            in_relation,
            attributes.len() as nat,
        ),
{
    let ghost names = attribute_names(attributes.deep_view());
    let mut seen = StringHashSet::new();
    let mut k: usize = 0;
    assert(names.take(0) =~= Seq::<Seq<char>>::empty());
    assert(errors.deep_view() + Seq::<ERDErrorView>::empty() =~= errors.deep_view());
    while k < attributes.len()
        invariant
            k <= attributes.len(),
            names == attribute_names(attributes.deep_view()),
            seen@ == names.take(k as int).to_set(),
            errors.deep_view() == old(errors).deep_view() + attribute_errors(
                attributes.deep_view(),
                owner@,
                in_relation,
                k as nat,
            ),
        decreases attributes.len() - k,
    {
        let attribute = &attributes[k];
        proof {
            assert(attributes.deep_view()[k as int].ident == attribute.ident@);
            assert(names.take(k + 1) =~= names.take(k as int).push(attribute.ident@));
            names.take(k as int).lemma_push_to_set_commute(attribute.ident@);
        }
        if seen.contains(attribute.ident.0.as_str()) {
            let ghost before = *errors;
            let error = if in_relation {
                ERDError::DuplicateAttributeInRelation(attribute.ident.clone(), owner.clone())
            } else {
                ERDError::DuplicateAttributeInEntity(attribute.ident.clone(), owner.clone())
            };
            errors.push(error);
            proof {
                lemma_deep_view_push(before, *errors, error);
                assert(seen@ =~= seen@.insert(attribute.ident@));
                assert(errors.deep_view() =~= old(errors).deep_view() + attribute_errors(
                    attributes.deep_view(),
                    owner@,
                    in_relation,
                    (k + 1) as nat,
                ));
            }
        } else {
            seen.insert(attribute.ident.0.clone());
        }
        k += 1;
    }
}

/// Adds to `errors` the faults among the members of one relation.
fn check_members(
    members: &Vec<RelationMember>,
    relation: &Ident,
    entity_names: &StringHashSet,
    errors: &mut Vec<ERDError>,
    Ghost(schema): Ghost<ERDView>,
    Ghost(view): Ghost<RelationView>,
)
    requires
        entity_names@ == schema.entity_names().to_set(),
        view.members == members.deep_view(),
        view.name == relation@,
    ensures
        final(errors).deep_view() == old(errors).deep_view() + schema.member_errors(
            view,
            members.len() as nat,
        ),
{
    let mut k: usize = 0;
    assert(errors.deep_view() + Seq::<ERDErrorView>::empty() =~= errors.deep_view());
    while k < members.len()
        invariant
            k <= members.len(),
            entity_names@ == schema.entity_names().to_set(),
            view.members == members.deep_view(),
            view.name == relation@,
            errors.deep_view() == old(errors).deep_view() + schema.member_errors(view, k as nat),
        decreases members.len() - k,
    {
        let member = &members[k];
        assert(view.members[k as int].entity == member.entity@);
        if !entity_names.contains(member.entity.0.as_str()) {
            let ghost before = *errors;
            let error = ERDError::UnknownEntityInRelation(member.entity.clone(), relation.clone());
            errors.push(error);
            proof {
                lemma_deep_view_push(before, *errors, error);
                assert(errors.deep_view() =~= old(errors).deep_view() + schema.member_errors(
                    view,
                    (k + 1) as nat,
                ));
            }
        }
        k += 1;
    }
}

/// All faults of a list of entities and a list of relations.
fn validate(entities: &Vec<Entity>, relations: &Vec<Relation>) -> (errors: Vec<ERDError>)
    ensures
        errors.deep_view() == (ERDView {
            entities: entities.deep_view(),
            relations: relations.deep_view(),
        }).errors(),
{
    let ghost schema = ERDView {
        entities: entities.deep_view(),
        relations: relations.deep_view(),
    };
    let ghost entity_names = schema.entity_names();
    let ghost relation_names = schema.relation_names();
    let mut errors: Vec<ERDError> = Vec::new();
    let mut seen_entities = StringHashSet::new();
    let mut i: usize = 0;
    assert(entity_names.take(0) =~= Seq::<Seq<char>>::empty());
    assert(errors.deep_view() =~= schema.entity_errors(0));
    while i < entities.len()
        invariant
            i <= entities.len(),
            schema == (ERDView { entities: entities.deep_view(), relations: relations.deep_view() }),
            entity_names == schema.entity_names(),
            seen_entities@ == entity_names.take(i as int).to_set(),
            errors.deep_view() == schema.entity_errors(i as nat),
        decreases entities.len() - i,
    {
        let entity = &entities[i];
        proof {
            assert(schema.entities[i as int] == entity.deep_view());
            assert(entity_names[i as int] == entity.name@);
            assert(entity_names.take(i + 1) =~= entity_names.take(i as int).push(entity.name@));
            entity_names.take(i as int).lemma_push_to_set_commute(entity.name@);
        }
        let ghost start = errors.deep_view();
        if seen_entities.contains(entity.name.0.as_str()) {
            let ghost before = errors;
            let error = ERDError::DuplicateIdent(entity.name.clone());
            errors.push(error);
            proof {
                lemma_deep_view_push(before, errors, error);
                assert(seen_entities@ =~= seen_entities@.insert(entity.name@));
            }
        } else {
            seen_entities.insert(entity.name.0.clone());
        }
        check_attributes(&entity.attributes, &entity.name, false, &mut errors);
        proof {
            assert(errors.deep_view() =~= start + schema.entity_report(i as int));
        }
        i += 1;
    }
    assert(entity_names.take(i as int) =~= entity_names);
    let mut seen_relations = StringHashSet::new();
    let mut j: usize = 0;
    assert(relation_names.take(0) =~= Seq::<Seq<char>>::empty());
    assert(errors.deep_view() =~= schema.entity_errors(entities.len() as nat)
        + schema.relation_errors(0));
    while j < relations.len()
        invariant
            j <= relations.len(),
            schema == (ERDView { entities: entities.deep_view(), relations: relations.deep_view() }),
            relation_names == schema.relation_names(),
            seen_entities@ == schema.entity_names().to_set(),
            seen_relations@ == relation_names.take(j as int).to_set(),
            errors.deep_view() == schema.entity_errors(entities.len() as nat)
                + schema.relation_errors(j as nat),
        decreases relations.len() - j,
    {
        let relation = &relations[j];
        proof {
            assert(schema.relations[j as int] == relation.deep_view());
            assert(relation_names[j as int] == relation.name@);
            assert(relation_names.take(j + 1) =~= relation_names.take(j as int).push(
                relation.name@,
            ));
            relation_names.take(j as int).lemma_push_to_set_commute(relation.name@);
        }
        let ghost start = errors.deep_view();
        if seen_entities.contains(relation.name.0.as_str()) || seen_relations.contains(
            relation.name.0.as_str(),
        ) {
            let ghost before = errors;
            let error = ERDError::DuplicateIdent(relation.name.clone());
            errors.push(error);
            proof {
                lemma_deep_view_push(before, errors, error);
            }
        }
        seen_relations.insert(relation.name.0.clone());
        check_members(
            &relation.members,
            &relation.name,
            &seen_entities,
            &mut errors,
            Ghost(schema),
            Ghost(relation.deep_view()),
        );
        check_attributes(&relation.attributes, &relation.name, true, &mut errors);
        proof {
            assert(errors.deep_view() =~= start + schema.relation_report(j as int));
            assert(errors.deep_view() =~= schema.entity_errors(entities.len() as nat)
                + schema.relation_errors((j + 1) as nat));
        }
        j += 1;
    }
    errors
}

/// A conceptual schema: the entities and relations of a document, found
/// free of faults. It is made by [`ERD::try_from`] alone and never changes.
#[derive(Debug, PartialEq, Eq)]
pub struct ERD {
    entities: Vec<Entity>,
    relations: Vec<Relation>,
}

impl DeepView for ERD {
    type V = ERDView;

    closed spec fn deep_view(&self) -> ERDView {
        ERDView { entities: self.entities.deep_view(), relations: self.relations.deep_view() }
    }
}

impl ERD {
    /// Every schema is well formed.
    #[verifier::type_invariant]
    pub open spec fn sound(self) -> bool {
        self.deep_view().well_formed()
    }
}

/// The attributes of one owner give no fault exactly when no two of them
/// share a name.
pub proof fn lemma_attribute_errors_none(
    attributes: Seq<AttributeView>,
    owner: Seq<char>,
    in_relation: bool,
)
    ensures
        attribute_errors(attributes, owner, in_relation, attributes.len()).len() == 0
            <==> attribute_names(attributes).no_duplicates(),
{
    let names = attribute_names(attributes);
    lemma_attribute_errors_prefix(attributes, owner, in_relation, attributes.len());
    lemma_no_duplicates_by_prefix(names);
}

proof fn lemma_attribute_errors_prefix(
    attributes: Seq<AttributeView>,
    owner: Seq<char>,
    in_relation: bool,
    n: nat,
)
    requires
        n <= attributes.len(),
    ensures
        attribute_errors(attributes, owner, in_relation, n).len() == 0 <==> forall|i: int|
            0 <= i < n ==> !(#[trigger] attribute_names(attributes).take(i)).contains(
                attribute_names(attributes)[i],
            ),
    decreases n,
{
    if n > 0 {
        lemma_attribute_errors_prefix(attributes, owner, in_relation, (n - 1) as nat);
        assert(attribute_names(attributes)[n - 1] == attributes[n - 1].ident);
    }
}

impl ERDView {
    proof fn lemma_entity_errors_prefix(self, n: nat)
        requires
            n <= self.entities.len(),
        ensures
            self.entity_errors(n).len() == 0 <==> forall|i: int|
                0 <= i < n ==> (#[trigger] self.entity_report(i)).len() == 0,
        decreases n,
    {
        if n > 0 {
            self.lemma_entity_errors_prefix((n - 1) as nat);
        }
    }

    proof fn lemma_relation_errors_prefix(self, n: nat)
        requires
            n <= self.relations.len(),
        ensures
            self.relation_errors(n).len() == 0 <==> forall|i: int|
                0 <= i < n ==> (#[trigger] self.relation_report(i)).len() == 0,
        decreases n,
    {
        if n > 0 {
            self.lemma_relation_errors_prefix((n - 1) as nat);
        }
    }

    proof fn lemma_member_errors_prefix(self, relation: RelationView, n: nat)
        requires
            n <= relation.members.len(),
        ensures
            self.member_errors(relation, n).len() == 0 <==> forall|j: int|
                0 <= j < n ==> self.has_entity(#[trigger] relation.members[j].entity),
        decreases n,
    {
        if n > 0 {
            self.lemma_member_errors_prefix(relation, (n - 1) as nat);
        }
    }

    /// The check finds no fault in a schema exactly when the schema is well
    /// formed.
    pub proof fn lemma_errors_none(self)
        ensures
            self.errors().len() == 0 <==> self.well_formed(),
    {
        let entity_names = self.entity_names();
        let relation_names = self.relation_names();
        self.lemma_entity_errors_prefix(self.entities.len());
        self.lemma_relation_errors_prefix(self.relations.len());
        lemma_no_duplicates_by_prefix(entity_names);
        lemma_no_duplicates_by_prefix(relation_names);
        assert forall|i: int| 0 <= i < self.entities.len() implies ((#[trigger] self.entity_report(
            i,
        )).len() == 0 <==> !entity_names.take(i).contains(entity_names[i]) && attribute_names(
            self.entities[i].attributes,
        ).no_duplicates()) by {
            let entity = self.entities[i];
            lemma_attribute_errors_none(entity.attributes, entity.name, false);
        }
        assert forall|i: int| 0 <= i < self.relations.len() implies (
        (#[trigger] self.relation_report(i)).len() == 0 <==> !self.has_entity(self.relations[i].name)
            && !relation_names.take(i).contains(relation_names[i]) && (forall|j: int|
            0 <= j < self.relations[i].members.len() ==> self.has_entity(
                #[trigger] self.relations[i].members[j].entity,
            )) && attribute_names(self.relations[i].attributes).no_duplicates()) by {
            let relation = self.relations[i];
            lemma_attribute_errors_none(relation.attributes, relation.name, true);
            self.lemma_member_errors_prefix(relation, relation.members.len());
        }
        if self.errors().len() == 0 {
            assert(self.entity_errors(self.entities.len()).len() == 0);
            assert(self.relation_errors(self.relations.len()).len() == 0);
            assert forall|i: int| 0 <= i < self.entities.len() implies !(
            #[trigger] entity_names.take(i)).contains(entity_names[i]) by {
                assert(self.entity_report(i).len() == 0);
            }
            assert forall|i: int| 0 <= i < self.relations.len() implies !(
            #[trigger] relation_names.take(i)).contains(relation_names[i]) by {
                assert(self.relation_report(i).len() == 0);
            }
            assert forall|i: int| 0 <= i < self.relations.len() implies !self.has_entity(
                #[trigger] self.relations[i].name,
            ) by {
                assert(self.relation_report(i).len() == 0);
            }
            assert forall|i: int, j: int|
                0 <= i < self.relations.len() && 0 <= j
                    < self.relations[i].members.len() implies self.has_entity(
                #[trigger] self.relations[i].members[j].entity,
            ) by {
                assert(self.relation_report(i).len() == 0);
            }
            assert forall|i: int| 0 <= i < self.entities.len() implies attribute_names(
                #[trigger] self.entities[i].attributes,
            ).no_duplicates() by {
                assert(self.entity_report(i).len() == 0);
            }
            assert forall|i: int| 0 <= i < self.relations.len() implies attribute_names(
                #[trigger] self.relations[i].attributes,
            ).no_duplicates() by {
                assert(self.relation_report(i).len() == 0);
            }
            assert(self.well_formed());
        }
        if self.well_formed() {
            assert forall|i: int| 0 <= i < self.entities.len() implies (
            #[trigger] self.entity_report(i)).len() == 0 by {
                assert(!entity_names.take(i).contains(entity_names[i]));
                assert(attribute_names(self.entities[i].attributes).no_duplicates());
            }
            assert forall|i: int| 0 <= i < self.relations.len() implies (
            #[trigger] self.relation_report(i)).len() == 0 by {
                assert(!relation_names.take(i).contains(relation_names[i]));
                assert(!self.has_entity(self.relations[i].name));
                assert(attribute_names(self.relations[i].attributes).no_duplicates());
                assert forall|j: int|
                    0 <= j < self.relations[i].members.len() implies self.has_entity(
                    #[trigger] self.relations[i].members[j].entity,
                ) by {}
            }
            assert(self.errors().len() == 0);
        }
    }

    /// What the entity at place `i` gives rise to is among the faults of
    /// the first `n` entities, for every `n` beyond `i`.
    pub proof fn lemma_entity_report_kept(self, n: nat, i: int, error: ERDErrorView)
        requires
            0 <= i < n,
            self.entity_report(i).contains(error),
        ensures
            self.entity_errors(n).contains(error),
        decreases n,
    {
        vstd::seq_lib::lemma_seq_concat_contains_all_elements(
            self.entity_errors((n - 1) as nat),
            self.entity_report(n - 1),
            error,
        );
        if i < n - 1 {
            self.lemma_entity_report_kept((n - 1) as nat, i, error);
        }
    }

    /// What the relation at place `i` gives rise to is among the faults of
    /// the first `n` relations, for every `n` beyond `i`.
    pub proof fn lemma_relation_report_kept(self, n: nat, i: int, error: ERDErrorView)
        requires
            0 <= i < n,
            self.relation_report(i).contains(error),
        ensures
            self.relation_errors(n).contains(error),
        decreases n,
    {
        vstd::seq_lib::lemma_seq_concat_contains_all_elements(
            self.relation_errors((n - 1) as nat),
            self.relation_report(n - 1),
            error,
        );
        if i < n - 1 {
            self.lemma_relation_report_kept((n - 1) as nat, i, error);
        }
    }

    /// A member whose entity the schema does not declare is reported among
    /// the faults of the first `n` members, for every `n` beyond its place.
    pub proof fn lemma_member_reported(self, relation: RelationView, n: nat, k: int)
        requires
            0 <= k < n,
            !self.has_entity(relation.members[k].entity),
        ensures
            self.member_errors(relation, n).contains(
                ERDErrorView::UnknownEntityInRelation(relation.members[k].entity, relation.name),
            ),
        decreases n,
    {
        let error = ERDErrorView::UnknownEntityInRelation(relation.members[k].entity, relation.name);
        let before = self.member_errors(relation, (n - 1) as nat);
        if k < n - 1 {
            self.lemma_member_reported(relation, (n - 1) as nat, k);
            if !self.has_entity(relation.members[n - 1].entity) {
                vstd::seq_lib::lemma_seq_contains_after_push(
                    before,
                    ERDErrorView::UnknownEntityInRelation(
                        relation.members[n - 1].entity,
                        relation.name,
                    ),
                    error,
                );
            }
        } else {
            assert(before.push(error).last() == error);
        }
    }

    /// No fault hides another: an entity whose name an earlier entity bears
    /// and a member whose entity is declared nowhere are both reported,
    /// whatever else is at fault.
    pub proof fn lemma_faults_accumulate(self, i: int, j: int, k: int)
        requires
            0 <= i < self.entities.len(),
            self.entity_names().take(i).contains(self.entities[i].name),
            0 <= j < self.relations.len(),
            0 <= k < self.relations[j].members.len(),
            !self.has_entity(self.relations[j].members[k].entity),
        ensures
            self.errors().contains(ERDErrorView::DuplicateIdent(self.entities[i].name)),
            self.errors().contains(
                ERDErrorView::UnknownEntityInRelation(
                    self.relations[j].members[k].entity,
                    self.relations[j].name,
                ),
            ),
    {
        let repeated = ERDErrorView::DuplicateIdent(self.entities[i].name);
        let relation = self.relations[j];
        let unknown = ERDErrorView::UnknownEntityInRelation(
            relation.members[k].entity,
            relation.name,
        );
        let first = self.entity_errors(self.entities.len());
        let second = self.relation_errors(self.relations.len());
        assert(self.entity_report(i)[0] == repeated);
        self.lemma_entity_report_kept(self.entities.len(), i, repeated);
        self.lemma_member_reported(relation, relation.members.len(), k);
        let named = if self.has_entity(relation.name) || self.relation_names().take(j).contains(
            relation.name,
        ) {
            seq![ERDErrorView::DuplicateIdent(relation.name)]
        } else {
            Seq::empty()
        };
        let members = self.member_errors(relation, relation.members.len());
        let attributes = attribute_errors(
            relation.attributes,
            relation.name,
            true,
            relation.attributes.len(),
        );
        vstd::seq_lib::lemma_seq_concat_contains_all_elements(named, members, unknown);
        vstd::seq_lib::lemma_seq_concat_contains_all_elements(named + members, attributes, unknown);
        self.lemma_relation_report_kept(self.relations.len(), j, unknown);
        vstd::seq_lib::lemma_seq_concat_contains_all_elements(first, second, repeated);
        vstd::seq_lib::lemma_seq_concat_contains_all_elements(first, second, unknown);
    }

    /// In a well-formed schema every member of a relation that is found by
    /// its name is an entity of the schema.
    pub proof fn lemma_members_known(self, name: Seq<char>)
        requires
            self.well_formed(),
        ensures
            match self.find_relation(name) {
                Some(relation) => relation.name == name && forall|j: int|
                    0 <= j < relation.members.len() ==> self.has_entity(
                        #[trigger] relation.members[j].entity,
                    ),
                None => !self.has_relation(name),
            },
    {
        lemma_first_position(self.relation_names(), name);
        match first_position(self.relation_names(), name) {
            Some(i) => {
                let relation = self.relations[i];
                assert(self.relation_names()[i] == relation.name);
                assert forall|j: int| 0 <= j < relation.members.len() implies self.has_entity(
                    #[trigger] relation.members[j].entity,
                ) by {
                    assert(self.has_entity(self.relations[i].members[j].entity));
                }
            },
            None => {},
        }
    }

    /// In a well-formed schema no name occurs twice among the names of the
    /// entities and the relations taken together.
    pub proof fn lemma_idents_distinct(self)
        requires
            self.well_formed(),
        ensures
            self.idents().no_duplicates(),
    {
        let entity_names = self.entity_names();
        let relation_names = self.relation_names();
        let all = self.idents();
        assert forall|i: int, j: int| 0 <= i < all.len() && 0 <= j < all.len() && i != j implies all[i]
            != all[j] by {
            if i < entity_names.len() && j >= entity_names.len() {
                let k = j - entity_names.len();
                assert(relation_names[k] == self.relations[k].name);
                assert(!self.has_entity(self.relations[k].name));
                assert(entity_names[i] == all[i]);
            } else if j < entity_names.len() && i >= entity_names.len() {
                let k = i - entity_names.len();
                assert(relation_names[k] == self.relations[k].name);
                assert(!self.has_entity(self.relations[k].name));
                assert(entity_names[j] == all[j]);
            }
        }
    }
}

impl ERD {
    /// Makes the schema that a list of declarations declares, where the
    /// check finds no fault in it; else gives every fault that it finds, in
    /// the order of the declarations, the entities before the relations.
    pub fn try_from(v: Vec<Expr>) -> (made: Result<ERD, Vec<ERDError>>)
        ensures
            match made {
                Ok(erd) => erd.deep_view() == declared_schema(v.deep_view()) && declared_schema(
                    v.deep_view(),
                ).errors().len() == 0,
                Err(errors) => errors.deep_view() == declared_schema(v.deep_view()).errors()
                    && errors.len() > 0,
            },
    {
        ERD::from_declarations(&v)
    }

    /// As [`ERD::try_from`], of declarations that the caller keeps.
    pub fn from_declarations(v: &Vec<Expr>) -> (made: Result<ERD, Vec<ERDError>>)
        ensures
            match made {
                Ok(erd) => erd.deep_view() == declared_schema(v.deep_view()) && declared_schema(
                    v.deep_view(),
                ).errors().len() == 0,
                Err(errors) => errors.deep_view() == declared_schema(v.deep_view()).errors()
                    && errors.len() > 0,
            },
    {
        let ghost declarations = v.deep_view();
        let mut entities: Vec<Entity> = Vec::new();
        let mut relations: Vec<Relation> = Vec::new();
        let mut i: usize = 0;
        assert(declarations.take(0) =~= Seq::<ExprView>::empty());
        assert(entities.deep_view() =~= declared_entities(declarations.take(0)));
        assert(relations.deep_view() =~= declared_relations(declarations.take(0)));
        while i < v.len()
            invariant
                i <= v.len(),
                declarations == v.deep_view(),
                entities.deep_view() == declared_entities(declarations.take(i as int)),
                relations.deep_view() == declared_relations(declarations.take(i as int)),
            decreases v.len() - i,
        {
            proof {
                assert(declarations.take(i + 1).drop_last() =~= declarations.take(i as int));
                assert(declarations.take(i + 1).last() == v[i as int].deep_view());
            }
            match &v[i] {
                Expr::Entity(name, attributes) => {
                    let ghost before = entities;
                    let entity = Entity {
                        name: name.clone(),
                        attributes: clone_attributes(attributes),
                    };
                    entities.push(entity);
                    proof {
                        assert(entity.attributes.deep_view() =~= attributes.deep_view());
                        lemma_deep_view_push(before, entities, entity);
                    }
                },
                Expr::Relation(name, label, members, attributes) => {
                    let ghost before = relations;
                    let relation = Relation {
                        name: name.clone(),
                        label: match label {
                            Some(label) => Some(label.clone()),
                            None => None,
                        },
                        members: clone_members(members),
                        attributes: clone_attributes(attributes),
                    };
                    relations.push(relation);
                    proof {
                        assert(relation.attributes.deep_view() =~= attributes.deep_view());
                        assert(relation.members.deep_view() =~= members.deep_view());
                        lemma_deep_view_push(before, relations, relation);
                    }
                },
                _ => {},
            }
            i += 1;
        }
        assert(declarations.take(i as int) =~= declarations);
        let errors = validate(&entities, &relations);
        if errors.len() == 0 {
            proof {
                declared_schema(declarations).lemma_errors_none();
            }
            Ok(ERD { entities, relations })
        } else {
            Err(errors)
        }
    }
}

/// The first of `members` whose entity is not `entity`.
pub open spec fn first_other(members: Seq<RelationMemberView>, entity: Seq<char>) -> Option<
    RelationMemberView,
>
    decreases members.len(),
{
    if members.len() == 0 {
        None
    } else if members.first().entity != entity {
        Some(members.first())
    } else {
        first_other(members.drop_first(), entity)
    }
}

/// The member that `first_other` finds is one of the members.
pub proof fn lemma_first_other_is_member(members: Seq<RelationMemberView>, entity: Seq<char>)
    ensures
        match first_other(members, entity) {
            Some(member) => members.contains(member) && member.entity != entity,
            None => forall|j: int| 0 <= j < members.len() ==> (#[trigger] members[j]).entity == entity,
        },
    decreases members.len(),
{
    if members.len() == 0 {
    } else if members.first().entity != entity {
        assert(members[0] == members.first());
    } else {
        let rest = members.drop_first();
        lemma_first_other_is_member(rest, entity);
        match first_other(rest, entity) {
            Some(member) => {
                let j = choose|j: int| 0 <= j < rest.len() && rest[j] == member;
                assert(members[j + 1] == member);
            },
            None => {
                assert forall|j: int| 0 <= j < members.len() implies (#[trigger] members[j]).entity
                    == entity by {
                    if j > 0 {
                        assert(rest[j - 1] == members[j]);
                    }
                }
            },
        }
    }
}

impl RelationView {
    /// The entities of the members, in their order.
    pub open spec fn member_entities(self) -> Seq<Seq<char>> {
        self.members.map_values(|m: RelationMemberView| m.entity)
    }

    /// The member to reach from the table of `entity`: the first member
    /// whose entity is another one.
    pub open spec fn other_member(self, entity: Seq<char>) -> Option<RelationMemberView> {
        first_other(self.members, entity)
    }

    /// Whether the relation can be folded into the table of `entity` as a
    /// column that refers to the other member: it has two members, at most
    /// one of them stands for any number, and the other member stands for
    /// one.
    pub open spec fn can_work_with_foreign_key(self, entity: Seq<char>) -> bool {
        &&& self.members.len() == 2
        &&& !(self.members[0].cardinality == RelationCardinality::Multiple
            && self.members[1].cardinality == RelationCardinality::Multiple)
        &&& match self.other_member(entity) {
            Some(member) => member.cardinality == RelationCardinality::One,
            None => false,
        }
    }
}

/// A relation between two different entities, of which one stands in it
/// for one and the other for any number, can be folded into the table of
/// the entity that stands for any number, and not into the table of the
/// entity that stands for one. It does not matter which of the two members
/// comes first.
pub proof fn lemma_absorption_direction(relation: RelationView, one: int, many: int)
    requires
        relation.members.len() == 2,
        (one == 0 && many == 1) || (one == 1 && many == 0),
        relation.members[one].entity != relation.members[many].entity,
        relation.members[one].cardinality == RelationCardinality::One,
        relation.members[many].cardinality == RelationCardinality::Multiple,
    ensures
        relation.can_work_with_foreign_key(relation.members[many].entity),
        !relation.can_work_with_foreign_key(relation.members[one].entity),
{
    let members = relation.members;
    reveal_with_fuel(first_other, 3);
    assert(members.drop_first().first() == members[1]);
}

/// A relation that does not have two members can be folded into no table.
pub proof fn lemma_absorption_needs_two_members(relation: RelationView, entity: Seq<char>)
    requires
        relation.members.len() != 2,
    ensures
        !relation.can_work_with_foreign_key(entity),
{
}

/// Among two members, at most one stands for any number as soon as the
/// other member stands for one: for a relation of two members, to be
/// folded into the table of `entity` is to have a first member of another
/// entity, and that member standing for one.
pub proof fn lemma_absorption_by_other_member(relation: RelationView, entity: Seq<char>)
    requires
        relation.members.len() == 2,
    ensures
        relation.can_work_with_foreign_key(entity) <==> match relation.other_member(entity) {
            Some(member) => member.cardinality == RelationCardinality::One,
            None => false,
        },
{
    lemma_first_other_is_member(relation.members, entity);
    match relation.other_member(entity) {
        Some(member) => {
            let j = choose|j: int| 0 <= j < relation.members.len() && relation.members[j] == member;
            assert(j == 0 || j == 1);
        },
        None => {},
    }
}

/// What the check reports depends on the declarations alone: two runs on
/// declarations that hold the same find the same faults, in the same
/// order.
pub proof fn lemma_validation_repeats(first: Vec<Expr>, second: Vec<Expr>)
    requires
        first.deep_view() == second.deep_view(),
    ensures
        declared_schema(first.deep_view()) == declared_schema(second.deep_view()),
        declared_schema(first.deep_view()).errors() == declared_schema(
            second.deep_view(),
        ).errors(),
{
}

impl Relation {
    pub fn name(&self) -> (name: Ident)
        ensures
            name@ == self.deep_view().name,
    {
        self.name.clone()
    }

    /// The number of members.
    pub fn degree(&self) -> (degree: usize)
        ensures
            degree == self.deep_view().members.len(),
    {
        self.members.len()
    }

    /// The label to show for the relation: its own where it has one, else
    /// its name.
    pub fn label(&self) -> (label: String)
        ensures
            label@ == match self.deep_view().label {
                Some(label) => label,
                None => self.deep_view().name,
            },
    {
        match &self.label {
            Some(label) => label.clone(),
            None => self.name.0.clone(),
        }
    }

    /// The entities of the members, in their order.
    pub fn get_members(&self) -> (entities: Vec<Ident>)
        ensures
            entities.deep_view() == self.deep_view().member_entities(),
    {
        let mut entities: Vec<Ident> = Vec::new();
        let mut i: usize = 0;
        while i < self.members.len()
            invariant
                i <= self.members.len(),
                entities.deep_view() == self.deep_view().member_entities().take(i as int),
            decreases self.members.len() - i,
        {
            let ghost before = entities;
            let entity = self.members[i].entity.clone();
            entities.push(entity);
            proof {
                lemma_deep_view_push(before, entities, entity);
                assert(entities.deep_view() =~= self.deep_view().member_entities().take(i + 1));
            }
            i += 1;
        }
        assert(self.deep_view().member_entities().take(i as int)
            =~= self.deep_view().member_entities());
        entities
    }

    /// The members, in their order.
    pub fn members(&self) -> (members: Vec<RelationMember>)
        ensures
            members.deep_view() == self.deep_view().members,
    {
        let members = clone_members(&self.members);
        assert(members.deep_view() =~= self.members.deep_view());
        members
    }

    /// The attributes that the relation owns, in their order.
    pub fn attributes(&self) -> (attributes: Vec<Attribute>)
        ensures
            attributes.deep_view() == self.deep_view().attributes,
    {
        let attributes = clone_attributes(&self.attributes);
        assert(attributes.deep_view() =~= self.attributes.deep_view());
        attributes
    }

    fn other_member(&self, entity: &Ident) -> (found: Option<&RelationMember>)
        ensures
            found.deep_view() == self.deep_view().other_member(entity@),
    {
        let ghost members = self.members.deep_view();
        let mut i: usize = 0;
        assert(members.skip(0) =~= members);
        while i < self.members.len()
            invariant
                i <= self.members.len(),
                members == self.members.deep_view(),
                first_other(members, entity@) == first_other(members.skip(i as int), entity@),
            decreases self.members.len() - i,
        {
            proof {
                assert(members.skip(i as int).first() == self.members[i as int].deep_view());
                assert(members.skip(i as int).drop_first() =~= members.skip(i + 1));
            }
            if !self.members[i].entity.same_as(entity) {
                return Some(&self.members[i]);
            }
            i += 1;
        }
        None
    }

    /// The entity of the member to reach from the table of `entity`: that
    /// of the first member whose entity is another one.
    pub fn find_other_member(&self, entity: Ident) -> (other: Option<Ident>)
        ensures
            other.deep_view() == match self.deep_view().other_member(entity@) {
                Some(member) => Some(member.entity),
                None => None,
            },
    {
        match self.other_member(&entity) {
            Some(member) => Some(member.entity.clone()),
            None => None,
        }
    }

    /// Whether the relation can be folded into the table of `entity`.
    pub fn can_work_with_foreign_key(&self, entity: Ident) -> (possible: bool)
        ensures
            possible == self.deep_view().can_work_with_foreign_key(entity@),
    {
        if self.members.len() != 2 {
            return false;
        }
        assert(self.deep_view().members[0] == self.members[0].deep_view());
        assert(self.deep_view().members[1] == self.members[1].deep_view());
        if self.members[0].cardinality == RelationCardinality::Multiple
            && self.members[1].cardinality == RelationCardinality::Multiple {
            return false;
        }
        match self.other_member(&entity) {
            Some(member) => member.cardinality == RelationCardinality::One,
            None => false,
        }
    }
}

impl ERD {
    fn entity_position(&self, name: &Ident) -> (found: Option<usize>)
        ensures
            match found {
                Some(i) => first_position(self.deep_view().entity_names(), name@) == Some(i as int)
                    && i < self.entities.len(),
                None => first_position(self.deep_view().entity_names(), name@).is_none(),
            },
    {
        let ghost names = self.deep_view().entity_names();
        let mut i: usize = 0;
        while i < self.entities.len()
            invariant
                i <= self.entities.len(),
                names == self.deep_view().entity_names(),
                forall|j: int| 0 <= j < i ==> names[j] != name@,
            decreases self.entities.len() - i,
        {
            assert(names[i as int] == self.entities[i as int].name@);
            if self.entities[i].name.same_as(name) {
                proof {
                    lemma_first_position_found(names, name@, i as int);
                }
                return Some(i);
            }
            i += 1;
        }
        proof {
            lemma_first_position(names, name@);
        }
        None
    }

    fn relation_position(&self, name: &Ident) -> (found: Option<usize>)
        ensures
            match found {
                Some(i) => first_position(self.deep_view().relation_names(), name@) == Some(
                    i as int,
                ) && i < self.relations.len(),
                None => first_position(self.deep_view().relation_names(), name@).is_none(),
            },
    {
        let ghost names = self.deep_view().relation_names();
        let mut i: usize = 0;
        while i < self.relations.len()
            invariant
                i <= self.relations.len(),
                names == self.deep_view().relation_names(),
                forall|j: int| 0 <= j < i ==> names[j] != name@,
            decreases self.relations.len() - i,
        {
            assert(names[i as int] == self.relations[i as int].name@);
            if self.relations[i].name.same_as(name) {
                proof {
                    lemma_first_position_found(names, name@, i as int);
                }
                return Some(i);
            }
            i += 1;
        }
        proof {
            lemma_first_position(names, name@);
        }
        None
    }

    /// Whether an entity bears the name.
    pub fn has_entity(&self, name: Ident) -> (found: bool)
        ensures
            found == self.deep_view().has_entity(name@),
    {
        proof {
            lemma_first_position(self.deep_view().entity_names(), name@);
        }
        self.entity_position(&name).is_some()
    }

    /// Whether a relation bears the name.
    pub fn has_relation(&self, name: Ident) -> (found: bool)
        ensures
            found == self.deep_view().has_relation(name@),
    {
        proof {
            lemma_first_position(self.deep_view().relation_names(), name@);
        }
        self.relation_position(&name).is_some()
    }

    /// Whether an entity or a relation bears the name.
    pub fn has_entity_or_relation(&self, name: Ident) -> (found: bool)
        ensures
            found == (self.deep_view().has_entity(name@) || self.deep_view().has_relation(name@)),
    {
        proof {
            lemma_first_position(self.deep_view().entity_names(), name@);
            lemma_first_position(self.deep_view().relation_names(), name@);
        }
        self.entity_position(&name).is_some() || self.relation_position(&name).is_some()
    }

    /// The attributes of the entity of that name; none where there is no
    /// such entity.
    pub fn get_entity_attributes(&self, name: Ident) -> (attributes: Vec<Attribute>)
        ensures
            attributes.deep_view() == self.deep_view().entity_attributes(name@),
    {
        match self.entity_position(&name) {
            Some(i) => {
                let attributes = clone_attributes(&self.entities[i].attributes);
                assert(attributes.deep_view() =~= self.entities[i as int].attributes.deep_view());
                attributes
            },
            None => {
                let attributes: Vec<Attribute> = Vec::new();
                assert(attributes.deep_view() =~= Seq::<AttributeView>::empty());
                attributes
            },
        }
    }

    /// The attributes of the relation of that name; none where there is no
    /// such relation.
    pub fn get_relation_attributes(&self, name: Ident) -> (attributes: Vec<Attribute>)
        ensures
            attributes.deep_view() == self.deep_view().relation_attributes(name@),
    {
        match self.relation_position(&name) {
            Some(i) => {
                let attributes = clone_attributes(&self.relations[i].attributes);
                assert(attributes.deep_view() =~= self.relations[i as int].attributes.deep_view());
                attributes
            },
            None => {
                let attributes: Vec<Attribute> = Vec::new();
                assert(attributes.deep_view() =~= Seq::<AttributeView>::empty());
                attributes
            },
        }
    }

    /// The attributes of the entity of that name, else of the relation of
    /// that name, else none.
    pub fn get_attributes(&self, name: Ident) -> (attributes: Vec<Attribute>)
        ensures
            attributes.deep_view() == self.deep_view().attributes_of(name@),
    {
        match self.entity_position(&name) {
            Some(i) => {
                let attributes = clone_attributes(&self.entities[i].attributes);
                assert(attributes.deep_view() =~= self.entities[i as int].attributes.deep_view());
                attributes
            },
            None => self.get_relation_attributes(name),
        }
    }

    /// The key attributes of the entity of that name, in their order; none
    /// where there is no such entity.
    pub fn get_entity_ids(&self, name: Ident) -> (keys: Vec<Attribute>)
        ensures
            keys.deep_view() == self.deep_view().entity_keys(name@),
    {
        let attributes = self.get_entity_attributes(name);
        let ghost all = attributes.deep_view();
        let mut keys: Vec<Attribute> = Vec::new();
        let mut i: usize = 0;
        proof {
            reveal(Seq::filter);
            assert(all.take(0) =~= Seq::<AttributeView>::empty());
            assert(keys.deep_view() =~= key_attributes(all.take(0)));
        }
        while i < attributes.len()
            invariant
                i <= attributes.len(),
                all == attributes.deep_view(),
                keys.deep_view() == key_attributes(all.take(i as int)),
            decreases attributes.len() - i,
        {
            proof {
                assert(all.take(i + 1) =~= all.take(i as int).push(attributes[i as int].deep_view()));
                lemma_key_attributes_push(all.take(i as int), attributes[i as int].deep_view());
            }
            if attributes[i].kind == AttributeType::Key {
                let ghost before = keys;
                let key = attributes[i].clone();
                keys.push(key);
                proof {
                    lemma_deep_view_push(before, keys, key);
                }
            }
            i += 1;
        }
        assert(all.take(i as int) =~= all);
        keys
    }

    /// The names of the entities, then those of the relations, each in the
    /// order of the declarations.
    pub fn get_idents(&self) -> (idents: Vec<Ident>)
        ensures
            idents.deep_view() == self.deep_view().idents(),
    {
        let ghost entity_names = self.deep_view().entity_names();
        let ghost relation_names = self.deep_view().relation_names();
        let mut idents: Vec<Ident> = Vec::new();
        let mut i: usize = 0;
        while i < self.entities.len()
            invariant
                i <= self.entities.len(),
                entity_names == self.deep_view().entity_names(),
                idents.deep_view() == entity_names.take(i as int),
            decreases self.entities.len() - i,
        {
            let ghost before = idents;
            let name = self.entities[i].name.clone();
            idents.push(name);
            proof {
                lemma_deep_view_push(before, idents, name);
                assert(idents.deep_view() =~= entity_names.take(i + 1));
            }
            i += 1;
        }
        let mut j: usize = 0;
        assert(idents.deep_view() =~= entity_names + relation_names.take(0));
        while j < self.relations.len()
            invariant
                j <= self.relations.len(),
                entity_names == self.deep_view().entity_names(),
                relation_names == self.deep_view().relation_names(),
                idents.deep_view() == entity_names + relation_names.take(j as int),
            decreases self.relations.len() - j,
        {
            let ghost before = idents;
            let name = self.relations[j].name.clone();
            idents.push(name);
            proof {
                lemma_deep_view_push(before, idents, name);
                assert(idents.deep_view() =~= entity_names + relation_names.take(j + 1));
            }
            j += 1;
        }
        assert(relation_names.take(j as int) =~= relation_names);
        idents
    }

    /// The first relation that bears the name.
    pub fn get_relation(&self, name: Ident) -> (relation: Option<Relation>)
        ensures
            relation.deep_view() == self.deep_view().find_relation(name@),
    {
        match self.relation_position(&name) {
            Some(i) => Some(self.relations[i].clone()),
            None => None,
        }
    }
}

/// The one list of attributes that holds `items`.
pub open spec fn single_list(items: Seq<AListItemView>) -> Option<AttributeListView> {
    Some(AttributeListView { content: items, tail: None })
}

/// The attribute with the given key and value.
pub open spec fn item(key: Seq<char>, value: Seq<char>) -> AListItemView {
    AListItemView { key, value }
}

/// The name of the node of an attribute: the name of its owner, an
/// underscore and its own name.
pub open spec fn attribute_node_name(owner: Seq<char>, attribute: Seq<char>) -> Seq<char> {
    owner + "_"@ + attribute
}

/// The node of an attribute of `owner`: an ellipse that shows the name of
/// the attribute, underlined where the attribute is a key.
pub open spec fn attribute_node(owner: Seq<char>, attribute: AttributeView) -> StatementView {
    StatementView::Node(
        NodeStatementView {
            node: attribute_node_name(owner, attribute.ident),
            attributes: single_list(
                seq![
                    item("shape"@, "ellipse"@),
                    item(
                        "label"@,
                        if attribute.kind == AttributeType::Key {
                            "<<U>"@ + attribute.ident + "</U>>"@
                        } else {
                            attribute.ident
                        },
                    ),
                ],
            ),
        },
    )
}

/// The edge from `owner` to one of its attributes.
pub open spec fn attribute_edge(owner: Seq<char>, attribute: AttributeView) -> StatementView {
    StatementView::Edge(
        EdgeStatementView {
            left: owner,
            right: EdgeRHSView {
                kind: EdgeType::Normal,
                id: attribute_node_name(owner, attribute.ident),
                right: None,
            },
            attributes: single_list(seq![item("len"@, "1.00"@)]),
        },
    )
}

/// The nodes of the attributes of `owner`, in their order.
pub open spec fn attribute_nodes(owner: Seq<char>, attributes: Seq<AttributeView>) -> Seq<
    StatementView,
> {
    attributes.map_values(|a: AttributeView| attribute_node(owner, a))
}

/// The edges from `owner` to its attributes, in their order.
pub open spec fn attribute_edges(owner: Seq<char>, attributes: Seq<AttributeView>) -> Seq<
    StatementView,
> {
    attributes.map_values(|a: AttributeView| attribute_edge(owner, a))
}

impl EntityView {
    /// The node of the entity: a box.
    pub open spec fn node(self) -> StatementView {
        StatementView::Node(
            NodeStatementView {
                node: self.name,
                attributes: single_list(seq![item("shape"@, "box"@)]),
            },
        )
    }

    /// The statements that draw the entity: its node, the nodes of its
    /// attributes, and the edges to them.
    pub open spec fn dot_statements(self) -> Seq<StatementView> {
        seq![self.node()] + attribute_nodes(self.name, self.attributes) + attribute_edges(
            self.name,
            self.attributes,
        )
    }
}

impl RelationView {
    /// The label that the relation shows: its own where it has one, else
    /// its name.
    pub open spec fn shown_label(self) -> Seq<char> {
        match self.label {
            Some(label) => label,
            None => self.name,
        }
    }

    /// The node of the relation: a diamond that shows the label between
    /// double quotes.
    pub open spec fn node(self) -> StatementView {
        StatementView::Node(
            NodeStatementView {
                node: self.name,
                attributes: single_list(
                    seq![
                        item("shape"@, "diamond"@),
                        item("label"@, "\""@ + self.shown_label() + "\""@),
                    ],
                ),
            },
        )
    }

    /// The letter for the next member that stands for any number, after
    /// the first `n` members: `n` at the start, and after each member what
    /// its cardinality makes of the letter before it.
    pub open spec fn symbol_after(self, n: nat) -> char
        decreases n,
    {
        if n == 0 {
            'n'
        } else {
            self.members[n - 1].cardinality.spec_amount(self.symbol_after((n - 1) as nat)).1
        }
    }

    /// The edge from the relation to the member at place `i`. Its colour
    /// is plain black for a member that may go without the relation and a
    /// double black line for one that may not; its label is the amount
    /// that the member stands for, in blue.
    pub open spec fn member_edge(self, i: int) -> StatementView {
        let member = self.members[i];
        StatementView::Edge(
            EdgeStatementView {
                left: self.name,
                right: EdgeRHSView { kind: EdgeType::Normal, id: member.entity, right: None },
                attributes: single_list(
                    seq![
                        item(
                            "color"@,
                            match member.optionality {
                                RelationOptionality::Optional => "black"@,
                                RelationOptionality::Required => "\"black:invis:invis:black\""@,
                            },
                        ),
                        item(
                            "label"@,
                            "<<font color=\"blue\">"@ + member.cardinality.spec_amount(
                                self.symbol_after(i as nat),
                            ).0 + "</font>>"@,
                        ),
                        item("len"@, "1.00"@),
                    ],
                ),
            },
        )
    }

    /// The edges to the members, in their order.
    pub open spec fn member_edges(self) -> Seq<StatementView> {
        Seq::new(self.members.len(), |i: int| self.member_edge(i))
    }

    /// The statements that draw the relation: its node, the nodes of its
    /// attributes, the edges to them, and the edges to its members.
    pub open spec fn dot_statements(self) -> Seq<StatementView> {
        seq![self.node()] + attribute_nodes(self.name, self.attributes) + attribute_edges(
            self.name,
            self.attributes,
        ) + self.member_edges()
    }
}

/// The statements that draw the first `n` of `entities`.
pub open spec fn entities_statements(entities: Seq<EntityView>, n: nat) -> Seq<StatementView>
    decreases n,
{
    if n == 0 {
        Seq::empty()
    } else {
        entities_statements(entities, (n - 1) as nat) + entities[n - 1].dot_statements()
    }
}

/// The statements that draw the first `n` of `relations`.
pub open spec fn relations_statements(relations: Seq<RelationView>, n: nat) -> Seq<StatementView>
    decreases n,
{
    if n == 0 {
        Seq::empty()
    } else {
        relations_statements(relations, (n - 1) as nat) + relations[n - 1].dot_statements()
    }
}

impl ERDView {
    /// The settings that every drawing of a schema begins with: the layout
    /// by springs, labels that are always shown, overlaps undone by
    /// scaling, and the spacing of the graph.
    pub open spec fn dot_settings(self) -> Seq<StatementView> {
        seq![
            StatementView::ID("layout"@, "neato"@),
            StatementView::ID("forcelabels"@, "true"@),
            StatementView::ID("overlap"@, "scale"@),
            StatementView::Attribute(
                AttributeStatementView {
                    kind: AttributeStatementType::Graph,
                    attributes: AttributeListView {
                        content: seq![
                            item("pad"@, "2"@),
                            item("nodesep"@, "1"@),
                            item("ranksep"@, "2"@),
                        ],
                        tail: None,
                    },
                },
            ),
        ]
    }

    /// The statements that draw the schema: the settings, the entities in
    /// their order, then the relations in theirs.
    pub open spec fn dot_statements(self) -> Seq<StatementView> {
        self.dot_settings() + entities_statements(self.entities, self.entities.len())
            + relations_statements(self.relations, self.relations.len())
    }

    /// The drawing of the schema: a graph without direction and without a
    /// name.
    pub open spec fn to_dot(self) -> GraphView {
        GraphView {
            strict: false,
            kind: GraphType::Normal,
            id: None,
            statements: self.dot_statements(),
        }
    }
}

/// The name of the node of an attribute.
fn node_name(owner: &Ident, attribute: &Ident) -> (name: String)
    ensures
        name@ == attribute_node_name(owner@, attribute@),
{
    let mut name = owner.0.clone();
    name.append("_");
    name.append(attribute.0.as_str());
    name
}

/// The list that holds the length of an edge.
fn edge_length() -> (list: Option<AttributeList>)
    ensures
        list.deep_view() == single_list(seq![item("len"@, "1.00"@)]),
{
    let mut items: Vec<AListItem> = Vec::new();
    items.push(AListItem::new("len", String::from_str("1.00")));
    let list = AttributeList::single(items);
    assert(items.deep_view() =~= seq![item("len"@, "1.00"@)]);
    Some(list)
}

impl Attribute {
    /// The statements that draw the attribute as one of `entity`: its
    /// node.
    pub fn to_dot_statements(&self, entity: Ident) -> (statements: Vec<Statement>)
        ensures
            statements.deep_view() == seq![attribute_node(entity@, self.deep_view())],
    {
        let label = match self.kind {
            AttributeType::Key => {
                let mut label = String::from_str("<<U>");
                label.append(self.ident.0.as_str());
                label.append("</U>>");
                label
            },
            AttributeType::Normal => self.ident.0.clone(),
        };
        let mut items: Vec<AListItem> = Vec::new();
        items.push(AListItem::new("shape", String::from_str("ellipse")));
        items.push(AListItem::new("label", label));
        let ghost wanted = seq![
            item("shape"@, "ellipse"@),
            item(
                "label"@,
                if self.kind == AttributeType::Key {
                    "<<U>"@ + self.ident@ + "</U>>"@
                } else {
                    self.ident@
                },
            ),
        ];
        assert(items.deep_view() =~= wanted);
        let node = Statement::Node(
            NodeStatement {
                node: node_name(&entity, &self.ident),
                attributes: Some(AttributeList::single(items)),
            },
        );
        let mut statements: Vec<Statement> = Vec::new();
        statements.push(node);
        assert(statements.deep_view() =~= seq![attribute_node(entity@, self.deep_view())]);
        statements
    }
}

/// Adds to `statements` the nodes of the attributes of `owner`, then the
/// edges to them.
fn push_attribute_statements(
    owner: &Ident,
    attributes: &Vec<Attribute>,
    statements: &mut Vec<Statement>,
)
    ensures
        final(statements).deep_view() == old(statements).deep_view() + attribute_nodes(
            owner@,
            attributes.deep_view(),
        ) + attribute_edges(owner@, attributes.deep_view()),
{
    let ghost nodes = attribute_nodes(owner@, attributes.deep_view());
    let ghost edges = attribute_edges(owner@, attributes.deep_view());
    let mut i: usize = 0;
    assert(statements.deep_view() =~= old(statements).deep_view() + nodes.take(0));
    while i < attributes.len()
        invariant
            i <= attributes.len(),
            nodes == attribute_nodes(owner@, attributes.deep_view()),
            statements.deep_view() == old(statements).deep_view() + nodes.take(i as int),
        decreases attributes.len() - i,
    {
        let ghost before = *statements;
        let mut drawn = attributes[i].to_dot_statements(owner.clone());
        let ghost added = drawn;
        statements.append(&mut drawn);
        proof {
            lemma_deep_view_append(before, added, *statements);
            assert(added.deep_view() =~= seq![nodes[i as int]]);
            assert(statements.deep_view() =~= old(statements).deep_view() + nodes.take(i + 1));
        }
        i += 1;
    }
    assert(nodes.take(i as int) =~= nodes);
    let mut j: usize = 0;
    assert(statements.deep_view() =~= old(statements).deep_view() + nodes + edges.take(0));
    while j < attributes.len()
        invariant
            j <= attributes.len(),
            nodes == attribute_nodes(owner@, attributes.deep_view()),
            edges == attribute_edges(owner@, attributes.deep_view()),
            statements.deep_view() == old(statements).deep_view() + nodes + edges.take(j as int),
        decreases attributes.len() - j,
    {
        let ghost before = *statements;
        let edge = Statement::Edge(
            EdgeStatement {
                left: owner.0.clone(),
                right: EdgeRHS::to_node(node_name(owner, &attributes[j].ident)),
                attributes: edge_length(),
            },
        );
        statements.push(edge);
        proof {
            lemma_deep_view_push(before, *statements, edge);
            assert(edge.deep_view() == edges[j as int]);
            assert(statements.deep_view() =~= old(statements).deep_view() + nodes + edges.take(
                j + 1,
            ));
        }
        j += 1;
    }
    assert(edges.take(j as int) =~= edges);
}

/// What can be drawn as statements of a graph description.
pub trait ToDot {
    /// The statements that draw the value.
    spec fn dot_statements(&self) -> Seq<StatementView>;

    /// The statements that draw the value.
    fn to_dot_statements(&self) -> (statements: Vec<Statement>)
        ensures
            statements.deep_view() == self.dot_statements(),
    ;
}

impl ToDot for Entity {
    open spec fn dot_statements(&self) -> Seq<StatementView> {
        self.deep_view().dot_statements()
    }

    fn to_dot_statements(&self) -> (statements: Vec<Statement>) {
        let mut items: Vec<AListItem> = Vec::new();
        items.push(AListItem::new("shape", String::from_str("box")));
        assert(items.deep_view() =~= seq![item("shape"@, "box"@)]);
        let node = Statement::Node(
            NodeStatement {
                node: self.name.0.clone(),
                attributes: Some(AttributeList::single(items)),
            },
        );
        let mut statements: Vec<Statement> = Vec::new();
        statements.push(node);
        assert(statements.deep_view() =~= seq![self.deep_view().node()]);
        push_attribute_statements(&self.name, &self.attributes, &mut statements);
        statements
    }
}

impl ToDot for Relation {
    open spec fn dot_statements(&self) -> Seq<StatementView> {
        self.deep_view().dot_statements()
    }

    fn to_dot_statements(&self) -> (statements: Vec<Statement>) {
        let ghost view = self.deep_view();
        let mut shown = String::from_str("\"");
        shown.append(self.label().as_str());
        shown.append("\"");
        let mut items: Vec<AListItem> = Vec::new();
        items.push(AListItem::new("shape", String::from_str("diamond")));
        items.push(AListItem::new("label", shown));
        assert(items.deep_view() =~= seq![
            item("shape"@, "diamond"@),
            item("label"@, "\""@ + view.shown_label() + "\""@),
        ]);
        let node = Statement::Node(
            NodeStatement {
                node: self.name.0.clone(),
                attributes: Some(AttributeList::single(items)),
            },
        );
        let mut statements: Vec<Statement> = Vec::new();
        statements.push(node);
        assert(statements.deep_view() =~= seq![view.node()]);
        push_attribute_statements(&self.name, &self.attributes, &mut statements);
        let ghost drawn = statements.deep_view();
        let ghost edges = view.member_edges();
        let mut symbol: char = 'n';
        let mut i: usize = 0;
        assert(statements.deep_view() =~= drawn + edges.take(0));
        while i < self.members.len()
            invariant
                i <= self.members.len(),
                view == self.deep_view(),
                edges == view.member_edges(),
                symbol == view.symbol_after(i as nat),
                statements.deep_view() == drawn + edges.take(i as int),
            decreases self.members.len() - i,
        {
            let member = &self.members[i];
            assert(view.members[i as int] == member.deep_view());
            let (amount, next) = member.cardinality.get_amount(symbol);
            let mut label = String::from_str("<<font color=\"blue\">");
            label.append(amount.as_str());
            label.append("</font>>");
            let colour = match member.optionality {
                RelationOptionality::Optional => String::from_str("black"),
                RelationOptionality::Required => String::from_str("\"black:invis:invis:black\""),
            };
            let mut items: Vec<AListItem> = Vec::new();
            items.push(AListItem::new("color", colour));
            items.push(AListItem::new("label", label));
            items.push(AListItem::new("len", String::from_str("1.00")));
            let edge = Statement::Edge(
                EdgeStatement {
                    left: self.name.0.clone(),
                    right: EdgeRHS::to_node(member.entity.0.clone()),
                    attributes: Some(AttributeList::single(items)),
                },
            );
            let ghost before = statements;
            statements.push(edge);
            proof {
                lemma_deep_view_push(before, statements, edge);
                assert(items.deep_view() =~= view.member_edge(
                    i as int,
                )->Edge_0.attributes.unwrap().content);
                assert(edge.deep_view() == edges[i as int]);
                assert(statements.deep_view() =~= drawn + edges.take(i + 1));
            }
            symbol = next;
            i += 1;
        }
        assert(edges.take(i as int) =~= edges);
        statements
    }
}

/// The statements that draw the first `n` of `items`, in their order.
pub open spec fn items_statements<T: ToDot>(items: Seq<T>, n: nat) -> Seq<StatementView>
    decreases n,
{
    if n == 0 {
        Seq::empty()
    } else {
        items_statements(items, (n - 1) as nat) + items[n - 1].dot_statements()
    }
}

impl<T: ToDot> ToDot for Vec<T> {
    open spec fn dot_statements(&self) -> Seq<StatementView> {
        items_statements(self@, self@.len())
    }

    fn to_dot_statements(&self) -> (statements: Vec<Statement>) {
        let mut statements: Vec<Statement> = Vec::new();
        let mut i: usize = 0;
        assert(statements.deep_view() =~= items_statements(self@, 0));
        while i < self.len()
            invariant
                i <= self.len(),
                statements.deep_view() == items_statements(self@, i as nat),
            decreases self.len() - i,
        {
            let ghost before = statements;
            let mut drawn = self[i].to_dot_statements();
            let ghost added = drawn;
            statements.append(&mut drawn);
            proof {
                lemma_deep_view_append(before, added, statements);
            }
            i += 1;
        }
        statements
    }
}

proof fn lemma_entities_statements(entities: Vec<Entity>, n: nat)
    requires
        n <= entities.len(),
    ensures
        items_statements(entities@, n) == entities_statements(entities.deep_view(), n),
    decreases n,
{
    if n > 0 {
        lemma_entities_statements(entities, (n - 1) as nat);
        assert(entities.deep_view()[n - 1] == entities@[n - 1].deep_view());
    }
}

proof fn lemma_relations_statements(relations: Vec<Relation>, n: nat)
    requires
        n <= relations.len(),
    ensures
        items_statements(relations@, n) == relations_statements(relations.deep_view(), n),
    decreases n,
{
    if n > 0 {
        lemma_relations_statements(relations, (n - 1) as nat);
        assert(relations.deep_view()[n - 1] == relations@[n - 1].deep_view());
    }
}

impl ToDot for ERD {
    open spec fn dot_statements(&self) -> Seq<StatementView> {
        self.deep_view().dot_statements()
    }

    fn to_dot_statements(&self) -> (statements: Vec<Statement>) {
        let ghost view = self.deep_view();
        let mut statements: Vec<Statement> = Vec::new();
        statements.push(Statement::ID(String::from_str("layout"), String::from_str("neato")));
        statements.push(Statement::ID(String::from_str("forcelabels"), String::from_str("true")));
        statements.push(Statement::ID(String::from_str("overlap"), String::from_str("scale")));
        let mut items: Vec<AListItem> = Vec::new();
        items.push(AListItem::new("pad", String::from_str("2")));
        items.push(AListItem::new("nodesep", String::from_str("1")));
        items.push(AListItem::new("ranksep", String::from_str("2")));
        assert(items.deep_view() =~= seq![
            item("pad"@, "2"@),
            item("nodesep"@, "1"@),
            item("ranksep"@, "2"@),
        ]);
        statements.push(
            Statement::Attribute(
                AttributeStatement {
                    kind: AttributeStatementType::Graph,
                    attributes: AttributeList::single(items),
                },
            ),
        );
        assert(statements.deep_view() =~= view.dot_settings());
        let ghost settings = statements;
        let mut entities = self.entities.to_dot_statements();
        let ghost drawn_entities = entities;
        statements.append(&mut entities);
        let ghost with_entities = statements;
        let mut relations = self.relations.to_dot_statements();
        let ghost drawn_relations = relations;
        statements.append(&mut relations);
        proof {
            lemma_deep_view_append(settings, drawn_entities, with_entities);
            lemma_deep_view_append(with_entities, drawn_relations, statements);
            lemma_entities_statements(self.entities, self.entities.len() as nat);
            lemma_relations_statements(self.relations, self.relations.len() as nat);
        }
        statements
    }
}

impl ERD {
    /// The drawing of the schema as a graph description.
    pub fn to_dot(&self) -> (graph: Graph)
        ensures
            graph.deep_view() == self.deep_view().to_dot(),
    {
        Graph {
            strict: false,
            kind: GraphType::Normal,
            id: None,
            statements: self.to_dot_statements(),
        }
    }
}

/// Why a document gave no schema: it could not be read, or what it
/// declares has faults.
#[derive(Debug, PartialEq, Eq)]
pub enum ERDFromScriptError {
    ParsingError(ConsumeError),
    ERDError(Vec<ERDError>),
}

impl ERD {
    /// Makes the schema of a document from the records that its reader
    /// found. Where a record holds a word that the language does not have,
    /// the document counts as not read; else the result is that of
    /// [`ERD::try_from`] on the declarations that the records stand for.
    pub fn from_script(records: &Vec<ParserExpr>) -> (made: Result<ERD, ERDFromScriptError>)
        ensures
            match declarations_of(records.deep_view()) {
                None => made == Err::<ERD, ERDFromScriptError>(
                    ERDFromScriptError::ParsingError(ConsumeError::UnknownParseError),
                ),
                Some(declarations) => match made {
                    Ok(erd) => erd.deep_view() == declared_schema(declarations) && declared_schema(
                        declarations,
                    ).errors().len() == 0,
                    Err(ERDFromScriptError::ERDError(errors)) => errors.deep_view()
                        == declared_schema(declarations).errors() && errors.len() > 0,
                    Err(ERDFromScriptError::ParsingError(_)) => false,
                },
            },
    {
        let declarations = match read_declarations(records) {
            Ok(declarations) => declarations,
            Err(error) => { return Err(ERDFromScriptError::ParsingError(error)); },
        };
        match ERD::from_declarations(&declarations) {
            Ok(erd) => Ok(erd),
            Err(errors) => Err(ERDFromScriptError::ERDError(errors)),
        }
    }
}

} // verus!

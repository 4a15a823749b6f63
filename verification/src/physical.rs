//! The physical schema: which tables a conceptual schema is laid out in,
//! the check of such a layout, and the tables and constraints that follow
//! from it.

use crate::ast::{
    clone_foreign_keys, Attribute, AttributeView, DataType, Expr, ExprView, ForeignKey,
    ForeignKeyView, Ident,
};
use crate::erd::{attribute_names, declared_schema, ERDError, ERDView, ERD};
use crate::parser::{declarations_of, read_declarations, ConsumeError, ParserExpr};
use crate::sql::SQL;
use crate::text::{joined, push_joined};
use crate::laws::{lemma_can_refer, lemma_key_column_names_len};
use crate::views::{
    first_position, lemma_deep_view_push, lemma_first_position, lemma_first_position_found,
};
use vstd::hash_set::StringHashSet;
use vstd::prelude::*;
use vstd::string::StringExecFns;

verus! {

/// The wish for a table that holds an entity, with the relations to fold
/// into it as foreign keys.
#[derive(Debug, PartialEq, Eq)]
pub struct EntityTableDescription {
    name: Ident,
    entity: Ident,
    foreign_keys: Vec<ForeignKey>,
}

/// What an [`EntityTableDescription`] holds.
pub struct EntityTableDescriptionView {
    pub name: Seq<char>,
    pub entity: Seq<char>,
    pub foreign_keys: Seq<ForeignKeyView>,
}

impl DeepView for EntityTableDescription {
    type V = EntityTableDescriptionView;

    closed spec fn deep_view(&self) -> EntityTableDescriptionView {
        EntityTableDescriptionView {
            name: self.name@,
            entity: self.entity@,
            foreign_keys: self.foreign_keys.deep_view(),
        }
    }
}

/// The wish for a table that holds a relation.
#[derive(Debug, PartialEq, Eq)]
pub struct RelationTableDescription {
    name: Ident,
    relation: Ident,
}

/// What a [`RelationTableDescription`] holds.
pub struct RelationTableDescriptionView {
    pub name: Seq<char>,
    pub relation: Seq<char>,
}

impl DeepView for RelationTableDescription {
    type V = RelationTableDescriptionView;

    closed spec fn deep_view(&self) -> RelationTableDescriptionView {
        RelationTableDescriptionView { name: self.name@, relation: self.relation@ }
    }
}

/// The wish for one table.
#[derive(Debug, PartialEq, Eq)]
pub enum TableDescription {
    Entity(EntityTableDescription),
    Relation(RelationTableDescription),
}

/// What a [`TableDescription`] holds.
pub enum TableDescriptionView {
    Entity(EntityTableDescriptionView),
    Relation(RelationTableDescriptionView),
}

impl DeepView for TableDescription {
    type V = TableDescriptionView;

    open spec fn deep_view(&self) -> TableDescriptionView {
        match self {
            TableDescription::Entity(table) => TableDescriptionView::Entity(table.deep_view()),
            TableDescription::Relation(table) => TableDescriptionView::Relation(table.deep_view()),
        }
    }
}

impl TableDescriptionView {
    /// The name of the table.
    pub open spec fn name(self) -> Seq<char> {
        match self {
            TableDescriptionView::Entity(table) => table.name,
            TableDescriptionView::Relation(table) => table.name,
        }
    }

    /// The entity or the relation that the table holds.
    pub open spec fn er(self) -> Seq<char> {
        match self {
            TableDescriptionView::Entity(table) => table.entity,
            TableDescriptionView::Relation(table) => table.relation,
        }
    }

    /// Whether the schema has what the table is to hold: an entity for a
    /// table of an entity, a relation for a table of a relation.
    pub open spec fn resolves(self, erd: ERDView) -> bool {
        match self {
            TableDescriptionView::Entity(table) => erd.has_entity(table.entity),
            TableDescriptionView::Relation(table) => erd.has_relation(table.relation),
        }
    }
}

/// A fault in the layout of a schema in tables.
#[derive(Debug, PartialEq, Eq)]
pub enum PhysicalError {
    /// Two tables bear the name.
    DuplicateTableName(Ident),
    /// The column, named first, occurs more than once in the table.
    DuplicateColumnNameInTable(Ident, Ident),
    /// The table, named second, is to hold what the schema does not have.
    UnknownEntityOrRelationInTable(Ident, Ident),
    /// The entity or relation is laid out more than once.
    ConvertedMoreThanOnce(Ident),
    /// The entity or relation is laid out nowhere.
    ForgottenEntityOrRelation(Ident),
    /// The relation is to be folded into a table and does not have two
    /// members.
    UnsupportedRelationDegree(Ident),
    /// A foreign key of the table, named second, names what is no relation.
    ForeignKeyToEntityInTable(Ident, Ident),
    /// The relation, named first, cannot be folded into the table.
    ImpossibleForeignKey(Ident, Ident),
}

/// What a [`PhysicalError`] holds.
pub enum PhysicalErrorView {
    DuplicateTableName(Seq<char>),
    DuplicateColumnNameInTable(Seq<char>, Seq<char>),
    UnknownEntityOrRelationInTable(Seq<char>, Seq<char>),
    ConvertedMoreThanOnce(Seq<char>),
    ForgottenEntityOrRelation(Seq<char>),
    UnsupportedRelationDegree(Seq<char>),
    ForeignKeyToEntityInTable(Seq<char>, Seq<char>),
    ImpossibleForeignKey(Seq<char>, Seq<char>),
}

impl DeepView for PhysicalError {
    type V = PhysicalErrorView;

    open spec fn deep_view(&self) -> PhysicalErrorView {
        match self {
            PhysicalError::DuplicateTableName(table) => PhysicalErrorView::DuplicateTableName(
                table@,
            ),
            PhysicalError::DuplicateColumnNameInTable(column, table) => {
                PhysicalErrorView::DuplicateColumnNameInTable(column@, table@)
            },
            PhysicalError::UnknownEntityOrRelationInTable(held, table) => {
                PhysicalErrorView::UnknownEntityOrRelationInTable(held@, table@)
            },
            PhysicalError::ConvertedMoreThanOnce(held) => PhysicalErrorView::ConvertedMoreThanOnce(
                held@,
            ),
            PhysicalError::ForgottenEntityOrRelation(held) => {
                PhysicalErrorView::ForgottenEntityOrRelation(held@)
            },
            PhysicalError::UnsupportedRelationDegree(relation) => {
                PhysicalErrorView::UnsupportedRelationDegree(relation@)
            },
            PhysicalError::ForeignKeyToEntityInTable(named, table) => {
                PhysicalErrorView::ForeignKeyToEntityInTable(named@, table@)
            },
            PhysicalError::ImpossibleForeignKey(relation, table) => {
                PhysicalErrorView::ImpossibleForeignKey(relation@, table@)
            },
        }
    }
}

/// What the check of a layout knows after some of the tables: the names of
/// the tables seen, the entities and relations laid out so far, and the
/// faults found.
pub struct Progress {
    pub table_names: Set<Seq<char>>,
    pub covered: Set<Seq<char>>,
    pub errors: Seq<PhysicalErrorView>,
}

/// What the check of one table of an entity knows after some of its
/// foreign keys: the names of the columns so far, the entities and
/// relations laid out so far, and the faults found.
pub struct KeyProgress {
    pub columns: Set<Seq<char>>,
    pub covered: Set<Seq<char>>,
    pub errors: Seq<PhysicalErrorView>,
}

impl KeyProgress {
    /// The same with one more fault.
    pub open spec fn with_error(self, error: PhysicalErrorView) -> KeyProgress {
        KeyProgress { errors: self.errors.push(error), ..self }
    }
}

/// The check of one foreign key of the table `table`. Its column must be
/// new in the table. It must name a relation of two members that can be
/// folded into the table of the table's entity and that is not laid out
/// yet; the relation then counts as laid out.
pub open spec fn check_foreign_key(
    erd: ERDView,
    table: EntityTableDescriptionView,
    before: KeyProgress,
    foreign_key: ForeignKeyView,
) -> KeyProgress {
    let named = if before.columns.contains(foreign_key.attribute_name) {
        before.with_error(
            PhysicalErrorView::DuplicateColumnNameInTable(foreign_key.attribute_name, table.name),
        )
    } else {
        KeyProgress { columns: before.columns.insert(foreign_key.attribute_name), ..before }
    };
    match erd.find_relation(foreign_key.relation) {
        None => named.with_error(
            PhysicalErrorView::ForeignKeyToEntityInTable(foreign_key.relation, table.name),
        ),
        Some(relation) => if relation.members.len() != 2 {
            named.with_error(PhysicalErrorView::UnsupportedRelationDegree(relation.name))
        } else if !relation.can_work_with_foreign_key(table.entity) {
            named.with_error(
                PhysicalErrorView::ImpossibleForeignKey(foreign_key.relation, table.name),
            )
        } else if named.covered.contains(foreign_key.relation) {
            named.with_error(PhysicalErrorView::ConvertedMoreThanOnce(foreign_key.relation))
        } else {
            KeyProgress { covered: named.covered.insert(foreign_key.relation), ..named }
        },
    }
}

/// The check of the first `n` foreign keys of `table`, in their order.
pub open spec fn check_foreign_keys(
    erd: ERDView,
    table: EntityTableDescriptionView,
    start: KeyProgress,
    n: nat,
) -> KeyProgress
    decreases n,
{
    if n == 0 {
        start
    } else {
        check_foreign_key(
            erd,
            table,
            check_foreign_keys(erd, table, start, (n - 1) as nat),
            table.foreign_keys[n - 1],
        )
    }
}

/// The check of one table. Its name must be new. What it is to hold must
/// be in the schema and not laid out yet, and then counts as laid out; of
/// a table of an entity the foreign keys are then checked, against columns
/// that begin as the attributes of the entity.
pub open spec fn check_table(erd: ERDView, before: Progress, table: TableDescriptionView)
    -> Progress {
    let named = if before.table_names.contains(table.name()) {
        Progress {
            errors: before.errors.push(PhysicalErrorView::DuplicateTableName(table.name())),
            ..before
        }
    } else {
        Progress { table_names: before.table_names.insert(table.name()), ..before }
    };
    if !table.resolves(erd) {
        Progress {
            errors: named.errors.push(
                PhysicalErrorView::UnknownEntityOrRelationInTable(table.er(), table.name()),
            ),
            ..named
        }
    } else if named.covered.contains(table.er()) {
        Progress {
            errors: named.errors.push(PhysicalErrorView::ConvertedMoreThanOnce(table.er())),
            ..named
        }
    } else {
        match table {
            TableDescriptionView::Relation(_) => Progress {
                covered: named.covered.insert(table.er()),
                ..named
            },
            TableDescriptionView::Entity(entity_table) => {
                let keys = check_foreign_keys(
                    erd,
                    entity_table,
                    KeyProgress {
                        columns: attribute_names(
                            erd.entity_attributes(entity_table.entity),
                        ).to_set(),
                        covered: named.covered.insert(table.er()),
                        errors: named.errors,
                    },
                    entity_table.foreign_keys.len(),
                );
                Progress { covered: keys.covered, errors: keys.errors, ..named }
            },
        }
    }
}

/// The check of the first `n` tables, in their order.
pub open spec fn check_tables(erd: ERDView, tables: Seq<TableDescriptionView>, n: nat) -> Progress
    decreases n,
{
    if n == 0 {
        Progress { table_names: Set::empty(), covered: Set::empty(), errors: Seq::empty() }
    } else {
        check_table(erd, check_tables(erd, tables, (n - 1) as nat), tables[n - 1])
    }
}

/// A report for each of the first `n` of `idents` that is not laid out.
pub open spec fn forgotten(idents: Seq<Seq<char>>, covered: Set<Seq<char>>, n: nat) -> Seq<
    PhysicalErrorView,
>
    decreases n,
{
    if n == 0 {
        Seq::empty()
    } else {
        let before = forgotten(idents, covered, (n - 1) as nat);
        if covered.contains(idents[n - 1]) {
            before
        } else {
            before.push(PhysicalErrorView::ForgottenEntityOrRelation(idents[n - 1]))
        }
    }
}

/// All faults of a layout: those of the tables in their order, then a
/// report for each entity and each relation of the schema that no table
/// and no foreign key lays out, the entities first. Every fault is
/// reported; none hides another.
pub open spec fn physical_errors(erd: ERDView, tables: Seq<TableDescriptionView>) -> Seq<
    PhysicalErrorView,
> {
    let checked = check_tables(erd, tables, tables.len());
    checked.errors + forgotten(erd.idents(), checked.covered, erd.idents().len())
}

impl EntityTableDescription {
    /// Whether the schema has the entity that the table is to hold.
    pub fn check_entity(&self, erd: &ERD) -> (found: bool)
        ensures
            found == erd.deep_view().has_entity(self.deep_view().entity),
    {
        erd.has_entity(self.entity.clone())
    }
}

impl RelationTableDescription {
    /// Whether the schema has the relation that the table is to hold.
    pub fn check_relation(&self, erd: &ERD) -> (found: bool)
        ensures
            found == erd.deep_view().has_relation(self.deep_view().relation),
    {
        erd.has_relation(self.relation.clone())
    }
}

impl TableDescription {
    /// Whether the schema has what the table is to hold.
    pub fn check_entity_or_relation(&self, erd: &ERD) -> (found: bool)
        ensures
            found == self.deep_view().resolves(erd.deep_view()),
    {
        match self {
            TableDescription::Entity(table) => table.check_entity(erd),
            TableDescription::Relation(table) => table.check_relation(erd),
        }
    }

    /// The name of the table.
    pub fn name(&self) -> (name: Ident)
        ensures
            name@ == self.deep_view().name(),
    {
        match self {
            TableDescription::Entity(table) => table.name.clone(),
            TableDescription::Relation(table) => table.name.clone(),
        }
    }

    /// The name of the entity or the relation that the table holds.
    pub fn er(&self) -> (held: Ident)
        ensures
            held@ == self.deep_view().er(),
    {
        match self {
            TableDescription::Entity(table) => table.entity.clone(),
            TableDescription::Relation(table) => table.relation.clone(),
        }
    }
}

/// The names of the attributes of an entity, as a set.
fn entity_columns(erd: &ERD, entity: &Ident) -> (columns: StringHashSet)
    ensures
        columns@ == attribute_names(erd.deep_view().entity_attributes(entity@)).to_set(),
{
    let attributes = erd.get_entity_attributes(entity.clone());
    let ghost names = attribute_names(attributes.deep_view());
    let mut columns = StringHashSet::new();
    let mut k: usize = 0;
    assert(names.take(0).to_set() =~= Set::<Seq<char>>::empty());
    while k < attributes.len()
        invariant
            k <= attributes.len(),
            names == attribute_names(attributes.deep_view()),
            columns@ == names.take(k as int).to_set(),
        decreases attributes.len() - k,
    {
        proof {
            assert(names[k as int] == attributes[k as int].ident@);
            assert(names.take(k + 1) =~= names.take(k as int).push(attributes[k as int].ident@));
            names.take(k as int).lemma_push_to_set_commute(attributes[k as int].ident@);
        }
        columns.insert(attributes[k].ident.0.clone());
        k += 1;
    }
    assert(names.take(k as int) =~= names);
    columns
}

/// Checks the foreign keys of one table of an entity.
fn validate_foreign_keys(
    erd: &ERD,
    table: &EntityTableDescription,
    covered: &mut StringHashSet,
    errors: &mut Vec<PhysicalError>,
)
    ensures
        ({
            let end = check_foreign_keys(
                erd.deep_view(),
                table.deep_view(),
                KeyProgress {
                    columns: attribute_names(
                        erd.deep_view().entity_attributes(table.deep_view().entity),
                    ).to_set(),
                    covered: old(covered)@,
                    errors: old(errors).deep_view(),
                },
                table.deep_view().foreign_keys.len(),
            );
            final(covered)@ == end.covered && final(errors).deep_view() == end.errors
        }),
{
    let ghost schema = erd.deep_view();
    let ghost view = table.deep_view();
    let mut columns = entity_columns(erd, &table.entity);
    let ghost start = KeyProgress {
        columns: columns@,
        covered: covered@,
        errors: errors.deep_view(),
    };
    let mut k: usize = 0;
    while k < table.foreign_keys.len()
        invariant
            k <= table.foreign_keys.len(),
            schema == erd.deep_view(),
            view == table.deep_view(),
            (KeyProgress { columns: columns@, covered: covered@, errors: errors.deep_view() })
                == check_foreign_keys(schema, view, start, k as nat),
        decreases table.foreign_keys.len() - k,
    {
        let foreign_key = &table.foreign_keys[k];
        assert(view.foreign_keys[k as int] == foreign_key.deep_view());
        if columns.contains(foreign_key.attribute_name.0.as_str()) {
            let ghost before = *errors;
            let error = PhysicalError::DuplicateColumnNameInTable(
                foreign_key.attribute_name.clone(),
                table.name.clone(),
            );
            errors.push(error);
            proof {
                lemma_deep_view_push(before, *errors, error);
            }
        } else {
            columns.insert(foreign_key.attribute_name.0.clone());
        }
        let ghost before = *errors;
        match erd.get_relation(foreign_key.relation.clone()) {
            Some(relation) => {
                if relation.degree() != 2 {
                    let error = PhysicalError::UnsupportedRelationDegree(relation.name());
                    errors.push(error);
                    proof {
                        lemma_deep_view_push(before, *errors, error);
                    }
                } else if relation.can_work_with_foreign_key(table.entity.clone()) {
                    if covered.contains(foreign_key.relation.0.as_str()) {
                        let error = PhysicalError::ConvertedMoreThanOnce(
                            foreign_key.relation.clone(),
                        );
                        errors.push(error);
                        proof {
                            lemma_deep_view_push(before, *errors, error);
                        }
                    } else {
                        covered.insert(foreign_key.relation.0.clone());
                    }
                } else {
                    let error = PhysicalError::ImpossibleForeignKey(
                        foreign_key.relation.clone(),
                        table.name.clone(),
                    );
                    errors.push(error);
                    proof {
                        lemma_deep_view_push(before, *errors, error);
                    }
                }
            },
            None => {
                let error = PhysicalError::ForeignKeyToEntityInTable(
                    foreign_key.relation.clone(),
                    table.name.clone(),
                );
                errors.push(error);
                proof {
                    lemma_deep_view_push(before, *errors, error);
                }
            },
        }
        k += 1;
    }
}

/// All faults of a layout.
fn validate(erd: &ERD, tables: &Vec<TableDescription>) -> (errors: Vec<PhysicalError>)
    ensures
        errors.deep_view() == physical_errors(erd.deep_view(), tables.deep_view()),
{
    let ghost schema = erd.deep_view();
    let ghost wishes = tables.deep_view();
    let mut errors: Vec<PhysicalError> = Vec::new();
    let mut covered = StringHashSet::new();
    let mut table_names = StringHashSet::new();
    let mut i: usize = 0;
    assert(errors.deep_view() =~= Seq::<PhysicalErrorView>::empty());
    while i < tables.len()
        invariant
            i <= tables.len(),
            schema == erd.deep_view(),
            wishes == tables.deep_view(),
            (Progress {
                table_names: table_names@,
                covered: covered@,
                errors: errors.deep_view(),
            }) == check_tables(schema, wishes, i as nat),
        decreases tables.len() - i,
    {
        let table = &tables[i];
        assert(wishes[i as int] == table.deep_view());
        let name = table.name();
        let held = table.er();
        if table_names.contains(name.0.as_str()) {
            let ghost before = errors;
            let error = PhysicalError::DuplicateTableName(name.clone());
            errors.push(error);
            proof {
                lemma_deep_view_push(before, errors, error);
            }
        } else {
            table_names.insert(name.0.clone());
        }
        let ghost before = errors;
        if !table.check_entity_or_relation(erd) {
            let error = PhysicalError::UnknownEntityOrRelationInTable(held, name);
            errors.push(error);
            proof {
                lemma_deep_view_push(before, errors, error);
            }
        } else if covered.contains(held.0.as_str()) {
            let error = PhysicalError::ConvertedMoreThanOnce(held);
            errors.push(error);
            proof {
                lemma_deep_view_push(before, errors, error);
            }
        } else {
            covered.insert(held.0);
            match table {
                TableDescription::Entity(entity_table) => {
                    validate_foreign_keys(erd, entity_table, &mut covered, &mut errors);
                },
                TableDescription::Relation(_) => {},
            }
        }
        i += 1;
    }
    let ghost checked = check_tables(schema, wishes, wishes.len());
    let idents = erd.get_idents();
    let mut j: usize = 0;
    assert(errors.deep_view() =~= checked.errors + forgotten(schema.idents(), checked.covered, 0));
    while j < idents.len()
        invariant
            j <= idents.len(),
            idents.deep_view() == schema.idents(),
            covered@ == checked.covered,
            errors.deep_view() == checked.errors + forgotten(
                schema.idents(),
                checked.covered,
                j as nat,
            ),
        decreases idents.len() - j,
    {
        assert(schema.idents()[j as int] == idents[j as int]@);
        if !covered.contains(idents[j].0.as_str()) {
            let ghost before = errors;
            let error = PhysicalError::ForgottenEntityOrRelation(idents[j].clone());
            errors.push(error);
            proof {
                lemma_deep_view_push(before, errors, error);
                assert(errors.deep_view() =~= checked.errors + forgotten(
                    schema.idents(),
                    checked.covered,
                    (j + 1) as nat,
                ));
            }
        }
        j += 1;
    }
    errors
}

/// The tables that a list of declarations wishes for, in its order.
pub open spec fn declared_tables(declarations: Seq<ExprView>) -> Seq<TableDescriptionView>
    decreases declarations.len(),
{
    if declarations.len() == 0 {
        Seq::empty()
    } else {
        let before = declared_tables(declarations.drop_last());
        match declarations.last() {
            ExprView::EntityTable(name, entity, foreign_keys) => before.push(
                TableDescriptionView::Entity(
                    EntityTableDescriptionView { name, entity, foreign_keys },
                ),
            ),
            ExprView::RelationTable(name, relation) => before.push(
                TableDescriptionView::Relation(RelationTableDescriptionView { name, relation }),
            ),
            _ => before,
        }
    }
}

/// A schema with its layout in tables, found free of faults. It is made by
/// [`PhysicalDescription::try_from`] alone and never changes.
#[derive(Debug, PartialEq, Eq)]
pub struct PhysicalDescription {
    erd: ERD,
    tables: Vec<TableDescription>,
}

/// What a [`PhysicalDescription`] holds.
pub struct PhysicalDescriptionView {
    pub erd: ERDView,
    pub tables: Seq<TableDescriptionView>,
}

impl DeepView for PhysicalDescription {
    type V = PhysicalDescriptionView;

    closed spec fn deep_view(&self) -> PhysicalDescriptionView {
        PhysicalDescriptionView { erd: self.erd.deep_view(), tables: self.tables.deep_view() }
    }
}

/// Why a list of declarations gave no layout: the faults of its schema,
/// or, where the schema has none, the faults of the layout.
#[derive(Debug, PartialEq, Eq)]
pub enum PhysicalERDError {
    ERD(Vec<ERDError>),
    Physical(Vec<PhysicalError>),
}

impl PhysicalDescription {
    /// Every layout is free of faults.
    #[verifier::type_invariant]
    pub open spec fn sound(self) -> bool {
        physical_errors(self.deep_view().erd, self.deep_view().tables).len() == 0
    }

    /// The drawing of the schema that is laid out.
    pub fn to_dot(&self) -> (graph: crate::dot::Graph)
        ensures
            graph.deep_view() == self.deep_view().erd.to_dot(),
    {
        self.erd.to_dot()
    }

    /// The schema that is laid out.
    pub fn erd(&self) -> (erd: &ERD)
        ensures
            erd.deep_view() == self.deep_view().erd,
    {
        &self.erd
    }

    /// The tables that the layout wishes for, in the order of their
    /// declarations.
    pub fn tables(&self) -> (tables: &Vec<TableDescription>)
        ensures
            tables.deep_view() == self.deep_view().tables,
    {
        &self.tables
    }

    /// Makes the schema that a list of declarations declares and the layout
    /// that it wishes for, where neither has a fault. Where the schema has
    /// faults, gives all of them; else, where the layout has faults, gives
    /// all of those.
    pub fn try_from(v: Vec<Expr>) -> (made: Result<PhysicalDescription, PhysicalERDError>)
        ensures
            match made {
                Ok(description) => {
                    &&& description.deep_view().erd == declared_schema(v.deep_view())
                    &&& description.deep_view().tables == declared_tables(v.deep_view())
                    &&& declared_schema(v.deep_view()).errors().len() == 0
                    &&& physical_errors(
                        declared_schema(v.deep_view()),
                        declared_tables(v.deep_view()),
                    ).len() == 0
                },
                Err(PhysicalERDError::ERD(errors)) => {
                    &&& errors.deep_view() == declared_schema(v.deep_view()).errors()
                    &&& errors.len() > 0
                },
                Err(PhysicalERDError::Physical(errors)) => {
                    &&& declared_schema(v.deep_view()).errors().len() == 0
                    &&& errors.deep_view() == physical_errors(
                        declared_schema(v.deep_view()),
                        declared_tables(v.deep_view()),
                    )
                    &&& errors.len() > 0
                },
            },
    {
        let erd = match ERD::from_declarations(&v) {
            Ok(erd) => erd,
            Err(errors) => { return Err(PhysicalERDError::ERD(errors)); },
        };
        let ghost declarations = v.deep_view();
        let mut tables: Vec<TableDescription> = Vec::new();
        let mut i: usize = 0;
        assert(declarations.take(0) =~= Seq::<ExprView>::empty());
        assert(tables.deep_view() =~= declared_tables(declarations.take(0)));
        while i < v.len()
            invariant
                i <= v.len(),
                declarations == v.deep_view(),
                tables.deep_view() == declared_tables(declarations.take(i as int)),
            decreases v.len() - i,
        {
            proof {
                assert(declarations.take(i + 1).drop_last() =~= declarations.take(i as int));
                assert(declarations.take(i + 1).last() == v[i as int].deep_view());
            }
            match &v[i] {
                Expr::EntityTable(name, entity, foreign_keys) => {
                    let ghost before = tables;
                    let table = TableDescription::Entity(
                        EntityTableDescription {
                            name: name.clone(),
                            entity: entity.clone(),
                            foreign_keys: clone_foreign_keys(foreign_keys),
                        },
                    );
                    tables.push(table);
                    proof {
                        assert(table->Entity_0.foreign_keys.deep_view()
                            =~= foreign_keys.deep_view());
                        lemma_deep_view_push(before, tables, table);
                    }
                },
                Expr::RelationTable(name, relation) => {
                    let ghost before = tables;
                    let table = TableDescription::Relation(
                        RelationTableDescription { name: name.clone(), relation: relation.clone() },
                    );
                    tables.push(table);
                    proof {
                        lemma_deep_view_push(before, tables, table);
                    }
                },
                _ => {},
            }
            i += 1;
        }
        assert(declarations.take(i as int) =~= declarations);
        let errors = validate(&erd, &tables);
        if errors.len() == 0 {
            Ok(PhysicalDescription { erd, tables })
        } else {
            Err(PhysicalERDError::Physical(errors))
        }
    }
}

/// The entity that each table holds; none for a table of a relation.
pub open spec fn table_entities(tables: Seq<TableDescriptionView>) -> Seq<Option<Seq<char>>> {
    tables.map_values(
        |t: TableDescriptionView|
            match t {
                TableDescriptionView::Entity(entity_table) => Some(entity_table.entity),
                TableDescriptionView::Relation(_) => None,
            },
    )
}

/// The name of the first table that holds the entity.
pub open spec fn table_of_entity(tables: Seq<TableDescriptionView>, entity: Seq<char>) -> Option<
    Seq<char>,
> {
    match first_position(table_entities(tables), Some(entity)) {
        Some(i) => Some(tables[i].name()),
        None => None,
    }
}

/// A column of a table.
#[derive(Debug, PartialEq, Eq)]
pub struct TableColumn {
    name: Ident,
    datatype: DataType,
}

/// What a [`TableColumn`] holds.
pub struct TableColumnView {
    pub name: Seq<char>,
    pub datatype: DataType,
}

impl DeepView for TableColumn {
    type V = TableColumnView;

    closed spec fn deep_view(&self) -> TableColumnView {
        TableColumnView { name: self.name@, datatype: self.datatype }
    }
}

/// A table: its name, its columns in their order, and the names of the
/// columns that make up its primary key.
#[derive(Debug, PartialEq, Eq)]
pub struct Table {
    name: Ident,
    columns: Vec<TableColumn>,
    primary_key_parts: Vec<Ident>,
}

/// What a [`Table`] holds.
pub struct TableView {
    pub name: Seq<char>,
    pub columns: Seq<TableColumnView>,
    pub primary_key_parts: Seq<Seq<char>>,
}

impl DeepView for Table {
    type V = TableView;

    closed spec fn deep_view(&self) -> TableView {
        TableView {
            name: self.name@,
            columns: self.columns.deep_view(),
            primary_key_parts: self.primary_key_parts.deep_view(),
        }
    }
}

/// Whether every attribute of the list has a data type.
pub open spec fn typed(attributes: Seq<AttributeView>) -> bool {
    forall|i: int| 0 <= i < attributes.len() ==> (#[trigger] attributes[i]).datatype.is_some()
}

/// The column that holds an attribute of the table's own entity: it has
/// the name and the type of the attribute.
pub open spec fn own_column(attribute: AttributeView) -> TableColumnView {
    TableColumnView { name: attribute.ident, datatype: attribute.datatype.unwrap() }
}

/// The column of the given name that holds a copy of `attribute`: its type
/// is the type by which one refers to the attribute.
pub open spec fn referring_column(name: Seq<char>, attribute: AttributeView) -> TableColumnView {
    TableColumnView { name, datatype: attribute.datatype.unwrap().spec_foreign_key_type() }
}

/// The columns for the attributes of an entity, in their order.
pub open spec fn own_columns(attributes: Seq<AttributeView>) -> Seq<TableColumnView> {
    attributes.map_values(|a: AttributeView| own_column(a))
}

/// The columns for the attributes of a relation, in their order, each
/// under the attribute's own name.
pub open spec fn copied_columns(attributes: Seq<AttributeView>) -> Seq<TableColumnView> {
    attributes.map_values(|a: AttributeView| referring_column(a.ident, a))
}

/// The names of the columns by which a foreign key named `column` refers
/// to an entity with the given keys. Where the entity has one key, the one
/// column bears the name `column` itself. Where it has several, there is
/// one column for each key, named `column`, an underscore and the name of
/// the key, so that no two of them share a name.
pub open spec fn key_column_names(column: Seq<char>, keys: Seq<Seq<char>>) -> Seq<Seq<char>> {
    if keys.len() == 1 {
        seq![column]
    } else {
        keys.map_values(|key: Seq<char>| column + "_"@ + key)
    }
}

/// The columns that refer to the given keys under the given names.
pub open spec fn referring_columns(names: Seq<Seq<char>>, keys: Seq<AttributeView>) -> Seq<
    TableColumnView,
> {
    Seq::new(keys.len(), |j: int| referring_column(names[j], keys[j]))
}

impl EntityTableDescriptionView {
    /// The entity that a foreign key of the table refers to: that of the
    /// other member of the relation that the key names.
    pub open spec fn referred_entity(self, erd: ERDView, foreign_key: ForeignKeyView) -> Option<
        Seq<char>,
    > {
        match erd.find_relation(foreign_key.relation) {
            Some(relation) => match relation.other_member(self.entity) {
                Some(member) => Some(member.entity),
                None => None,
            },
            None => None,
        }
    }

    /// The keys of the entity that a foreign key of the table refers to.
    pub open spec fn referred_keys(self, erd: ERDView, foreign_key: ForeignKeyView) -> Seq<
        AttributeView,
    > {
        match self.referred_entity(erd, foreign_key) {
            Some(entity) => erd.entity_keys(entity),
            None => Seq::empty(),
        }
    }

    /// The columns of one foreign key of the table.
    pub open spec fn key_columns(self, erd: ERDView, foreign_key: ForeignKeyView) -> Seq<
        TableColumnView,
    > {
        let keys = self.referred_keys(erd, foreign_key);
        referring_columns(key_column_names(foreign_key.attribute_name, attribute_names(keys)), keys)
    }

    /// The columns of the first `n` foreign keys of the table.
    pub open spec fn keys_columns(self, erd: ERDView, n: nat) -> Seq<TableColumnView>
        decreases n,
    {
        if n == 0 {
            Seq::empty()
        } else {
            self.keys_columns(erd, (n - 1) as nat) + self.key_columns(erd, self.foreign_keys[n - 1])
        }
    }

    /// Whether the table can be made: every foreign key refers to an
    /// entity, and every attribute that becomes a column has a data type.
    pub open spec fn can_materialize(self, erd: ERDView) -> bool {
        &&& typed(erd.entity_attributes(self.entity))
        &&& forall|k: int|
            0 <= k < self.foreign_keys.len() ==> self.referred_entity(
                erd,
                #[trigger] self.foreign_keys[k],
            ).is_some() && typed(self.referred_keys(erd, self.foreign_keys[k]))
    }

    /// The table of an entity. Its columns are the attributes of the
    /// entity, in their order and with their types, then the columns of the
    /// foreign keys in theirs. Its primary key is made of the keys of the
    /// entity.
    pub open spec fn to_table(self, erd: ERDView) -> TableView {
        TableView {
            name: self.name,
            columns: own_columns(erd.entity_attributes(self.entity)) + self.keys_columns(
                erd,
                self.foreign_keys.len(),
            ),
            primary_key_parts: attribute_names(erd.entity_keys(self.entity)),
        }
    }
}

/// The entities of the members of the relation of that name, in their
/// order.
pub open spec fn members_of(erd: ERDView, relation: Seq<char>) -> Seq<Seq<char>> {
    match erd.find_relation(relation) {
        Some(found) => found.member_entities(),
        None => Seq::empty(),
    }
}

/// What tells the columns of the member at place `i` from those of an
/// earlier member of the same entity: nothing for the first member of an
/// entity, `2` for a later one.
pub open spec fn member_suffix(members: Seq<Seq<char>>, i: int) -> Seq<char> {
    if members.take(i).contains(members[i]) {
        "2"@
    } else {
        Seq::empty()
    }
}

/// The name of the column that holds the key `key` of the member at place
/// `i`: the name of the entity, an underscore, the name of the key, and
/// the suffix of the member.
pub open spec fn member_key_name(members: Seq<Seq<char>>, i: int, key: Seq<char>) -> Seq<char> {
    members[i] + "_"@ + key + member_suffix(members, i)
}

/// The names of the columns that hold the keys of the member at place `i`.
pub open spec fn member_key_names(erd: ERDView, members: Seq<Seq<char>>, i: int) -> Seq<
    Seq<char>,
> {
    attribute_names(erd.entity_keys(members[i])).map_values(
        |key: Seq<char>| member_key_name(members, i, key),
    )
}

/// The names of the key columns of the first `n` members.
pub open spec fn members_key_names(erd: ERDView, members: Seq<Seq<char>>, n: nat) -> Seq<
    Seq<char>,
>
    decreases n,
{
    if n == 0 {
        Seq::empty()
    } else {
        members_key_names(erd, members, (n - 1) as nat) + member_key_names(erd, members, n - 1)
    }
}

/// The key columns of the first `n` members.
pub open spec fn members_key_columns(erd: ERDView, members: Seq<Seq<char>>, n: nat) -> Seq<
    TableColumnView,
>
    decreases n,
{
    if n == 0 {
        Seq::empty()
    } else {
        members_key_columns(erd, members, (n - 1) as nat) + referring_columns(
            member_key_names(erd, members, n - 1),
            erd.entity_keys(members[n - 1]),
        )
    }
}

impl RelationTableDescriptionView {
    /// Whether the table can be made: its relation is in the schema, and
    /// every attribute that becomes a column has a data type.
    pub open spec fn can_materialize(self, erd: ERDView) -> bool {
        &&& erd.find_relation(self.relation).is_some()
        &&& typed(erd.relation_attributes(self.relation))
        &&& forall|i: int|
            0 <= i < members_of(erd, self.relation).len() ==> typed(
                erd.entity_keys(#[trigger] members_of(erd, self.relation)[i]),
            )
    }

    /// The table of a relation. Its columns are the attributes of the
    /// relation, in their order, then for each member in turn a copy of
    /// each key of the member's entity. Its primary key is made of all
    /// those copies. Every column has the type by which one refers to what
    /// it is a column for.
    pub open spec fn to_table(self, erd: ERDView) -> TableView {
        let members = members_of(erd, self.relation);
        TableView {
            name: self.name,
            columns: copied_columns(erd.relation_attributes(self.relation)) + members_key_columns(
                erd,
                members,
                members.len(),
            ),
            primary_key_parts: members_key_names(erd, members, members.len()),
        }
    }
}

impl TableDescriptionView {
    /// Whether the table can be made.
    pub open spec fn can_materialize(self, erd: ERDView) -> bool {
        match self {
            TableDescriptionView::Entity(table) => table.can_materialize(erd),
            TableDescriptionView::Relation(table) => table.can_materialize(erd),
        }
    }

    /// The table that is wished for.
    pub open spec fn to_table(self, erd: ERDView) -> TableView {
        match self {
            TableDescriptionView::Entity(table) => table.to_table(erd),
            TableDescriptionView::Relation(table) => table.to_table(erd),
        }
    }
}

/// The names of a list of attributes.
fn attribute_idents(attributes: &Vec<Attribute>) -> (names: Vec<Ident>)
    ensures
        names.deep_view() == attribute_names(attributes.deep_view()),
        names.len() == attributes.len(),
{
    let ghost all = attribute_names(attributes.deep_view());
    let mut names: Vec<Ident> = Vec::new();
    let mut i: usize = 0;
    while i < attributes.len()
        invariant
            i <= attributes.len(),
            all == attribute_names(attributes.deep_view()),
            names.deep_view() == all.take(i as int),
            names.len() == i,
        decreases attributes.len() - i,
    {
        let ghost before = names;
        let name = attributes[i].ident.clone();
        names.push(name);
        proof {
            lemma_deep_view_push(before, names, name);
            assert(names.deep_view() =~= all.take(i + 1));
        }
        i += 1;
    }
    assert(all.take(i as int) =~= all);
    names
}

/// Whether every attribute of the list has a data type.
fn all_typed(attributes: &Vec<Attribute>) -> (all: bool)
    ensures
        all == typed(attributes.deep_view()),
{
    let mut i: usize = 0;
    while i < attributes.len()
        invariant
            i <= attributes.len(),
            forall|j: int| 0 <= j < i ==> (#[trigger] attributes.deep_view()[j]).datatype.is_some(),
        decreases attributes.len() - i,
    {
        if attributes[i].datatype.is_none() {
            assert(attributes.deep_view()[i as int].datatype.is_none());
            return false;
        }
        i += 1;
    }
    true
}

/// Adds to `columns` the columns that refer to `keys` under `names`.
fn push_referring_columns(columns: &mut Vec<TableColumn>, names: &Vec<Ident>, keys: &Vec<Attribute>)
    requires
        names.len() == keys.len(),
        typed(keys.deep_view()),
    ensures
        final(columns).deep_view() == old(columns).deep_view() + referring_columns(
            names.deep_view(),
            keys.deep_view(),
        ),
{
    let ghost wanted = referring_columns(names.deep_view(), keys.deep_view());
    let mut j: usize = 0;
    assert(columns.deep_view() =~= old(columns).deep_view() + wanted.take(0));
    while j < keys.len()
        invariant
            j <= keys.len(),
            names.len() == keys.len(),
            typed(keys.deep_view()),
            wanted == referring_columns(names.deep_view(), keys.deep_view()),
            columns.deep_view() == old(columns).deep_view() + wanted.take(j as int),
        decreases keys.len() - j,
    {
        let ghost before = *columns;
        assert(keys.deep_view()[j as int].datatype.is_some());
        let datatype = keys[j].datatype.unwrap().foreign_key_type();
        let column = TableColumn { name: names[j].clone(), datatype };
        columns.push(column);
        proof {
            lemma_deep_view_push(before, *columns, column);
            assert(column.deep_view() == wanted[j as int]);
            assert(columns.deep_view() =~= old(columns).deep_view() + wanted.take(j + 1));
        }
        j += 1;
    }
    assert(wanted.take(j as int) =~= wanted);
}

/// The names of the columns by which a foreign key named `column` refers
/// to an entity with the given keys.
fn foreign_key_column_names(column: &Ident, keys: &Vec<Ident>) -> (names: Vec<Ident>)
    ensures
        names.deep_view() == key_column_names(column@, keys.deep_view()),
{
    let mut names: Vec<Ident> = Vec::new();
    if keys.len() == 1 {
        let ghost before = names;
        let name = column.clone();
        names.push(name);
        proof {
            lemma_deep_view_push(before, names, name);
            assert(names.deep_view() =~= seq![column@]);
        }
        return names;
    }
    let ghost wanted = key_column_names(column@, keys.deep_view());
    let mut j: usize = 0;
    while j < keys.len()
        invariant
            j <= keys.len(),
            keys.len() != 1,
            wanted == key_column_names(column@, keys.deep_view()),
            names.deep_view() == wanted.take(j as int),
        decreases keys.len() - j,
    {
        let ghost before = names;
        let mut spelled = column.0.clone();
        spelled.append("_");
        spelled.append(keys[j].0.as_str());
        let name = Ident(spelled);
        names.push(name);
        proof {
            lemma_deep_view_push(before, names, name);
            assert(name@ == wanted[j as int]);
            assert(names.deep_view() =~= wanted.take(j + 1));
        }
        j += 1;
    }
    assert(wanted.take(j as int) =~= wanted);
    names
}

impl EntityTableDescription {
    /// The entity that a foreign key of the table refers to.
    fn referred_entity(&self, erd: &ERD, foreign_key: &ForeignKey) -> (entity: Option<Ident>)
        ensures
            entity.deep_view() == self.deep_view().referred_entity(
                erd.deep_view(),
                foreign_key.deep_view(),
            ),
    {
        match erd.get_relation(foreign_key.relation.clone()) {
            Some(relation) => relation.find_other_member(self.entity.clone()),
            None => None,
        }
    }

    /// The keys of the entity that a foreign key of the table refers to.
    fn referred_keys(&self, erd: &ERD, foreign_key: &ForeignKey) -> (keys: Vec<Attribute>)
        ensures
            keys.deep_view() == self.deep_view().referred_keys(
                erd.deep_view(),
                foreign_key.deep_view(),
            ),
    {
        match self.referred_entity(erd, foreign_key) {
            Some(entity) => erd.get_entity_ids(entity),
            None => {
                let keys: Vec<Attribute> = Vec::new();
                assert(keys.deep_view() =~= Seq::<AttributeView>::empty());
                keys
            },
        }
    }

    /// Whether the table can be made.
    pub fn can_materialize(&self, erd: &ERD) -> (possible: bool)
        ensures
            possible == self.deep_view().can_materialize(erd.deep_view()),
    {
        let attributes = erd.get_entity_attributes(self.entity.clone());
        if !all_typed(&attributes) {
            return false;
        }
        let ghost view = self.deep_view();
        let mut k: usize = 0;
        while k < self.foreign_keys.len()
            invariant
                k <= self.foreign_keys.len(),
                view == self.deep_view(),
                forall|i: int|
                    0 <= i < k ==> view.referred_entity(
                        erd.deep_view(),
                        #[trigger] view.foreign_keys[i],
                    ).is_some() && typed(view.referred_keys(erd.deep_view(), view.foreign_keys[i])),
            decreases self.foreign_keys.len() - k,
        {
            let foreign_key = &self.foreign_keys[k];
            assert(view.foreign_keys[k as int] == foreign_key.deep_view());
            if self.referred_entity(erd, foreign_key).is_none() {
                return false;
            }
            let keys = self.referred_keys(erd, foreign_key);
            if !all_typed(&keys) {
                return false;
            }
            k += 1;
        }
        true
    }

    /// The table of the entity.
    pub fn to_table(&self, erd: &ERD) -> (table: Table)
        requires
            self.deep_view().can_materialize(erd.deep_view()),
        ensures
            table.deep_view() == self.deep_view().to_table(erd.deep_view()),
    {
        let ghost schema = erd.deep_view();
        let ghost view = self.deep_view();
        let attributes = erd.get_entity_attributes(self.entity.clone());
        let ghost own = own_columns(attributes.deep_view());
        let mut columns: Vec<TableColumn> = Vec::new();
        let mut i: usize = 0;
        while i < attributes.len()
            invariant
                i <= attributes.len(),
                typed(attributes.deep_view()),
                own == own_columns(attributes.deep_view()),
                columns.deep_view() == own.take(i as int),
            decreases attributes.len() - i,
        {
            let ghost before = columns;
            assert(attributes.deep_view()[i as int].datatype.is_some());
            let datatype = attributes[i].datatype.unwrap();
            let column = TableColumn { name: attributes[i].ident.clone(), datatype };
            columns.push(column);
            proof {
                lemma_deep_view_push(before, columns, column);
                assert(columns.deep_view() =~= own.take(i + 1));
            }
            i += 1;
        }
        assert(own.take(i as int) =~= own);
        let mut k: usize = 0;
        assert(columns.deep_view() =~= own + view.keys_columns(schema, 0));
        while k < self.foreign_keys.len()
            invariant
                k <= self.foreign_keys.len(),
                schema == erd.deep_view(),
                view == self.deep_view(),
                view.can_materialize(schema),
                columns.deep_view() == own + view.keys_columns(schema, k as nat),
            decreases self.foreign_keys.len() - k,
        {
            let foreign_key = &self.foreign_keys[k];
            assert(view.foreign_keys[k as int] == foreign_key.deep_view());
            let keys = self.referred_keys(erd, foreign_key);
            let names = foreign_key_column_names(
                &foreign_key.attribute_name,
                &attribute_idents(&keys),
            );
            proof {
                assert(view.referred_entity(schema, view.foreign_keys[k as int]).is_some());
                lemma_key_column_names_len(
                    foreign_key.attribute_name@,
                    attribute_names(keys.deep_view()),
                );
            }
            push_referring_columns(&mut columns, &names, &keys);
            proof {
                assert(columns.deep_view() =~= own + view.keys_columns(schema, (k + 1) as nat));
            }
            k += 1;
        }
        let primary_key_parts = attribute_idents(&erd.get_entity_ids(self.entity.clone()));
        Table { name: self.name.clone(), columns, primary_key_parts }
    }
}

/// The names of the columns that hold the keys of the member at place `i`
/// of `members`; `repeated` tells whether an earlier member has the same
/// entity.
fn renamed_keys(members: &Vec<Ident>, i: usize, repeated: bool, keys: &Vec<Ident>) -> (names: Vec<
    Ident,
>)
    requires
        i < members.len(),
        repeated == members.deep_view().take(i as int).contains(members.deep_view()[i as int]),
    ensures
        names.deep_view() == keys.deep_view().map_values(
            |key: Seq<char>| member_key_name(members.deep_view(), i as int, key),
        ),
        names.len() == keys.len(),
{
    let ghost wanted = keys.deep_view().map_values(
        |key: Seq<char>| member_key_name(members.deep_view(), i as int, key),
    );
    let mut names: Vec<Ident> = Vec::new();
    let mut j: usize = 0;
    while j < keys.len()
        invariant
            j <= keys.len(),
            i < members.len(),
            repeated == members.deep_view().take(i as int).contains(members.deep_view()[i as int]),
            wanted == keys.deep_view().map_values(
                |key: Seq<char>| member_key_name(members.deep_view(), i as int, key),
            ),
            names.deep_view() == wanted.take(j as int),
            names.len() == j,
        decreases keys.len() - j,
    {
        let ghost before = names;
        let mut spelled = members[i].0.clone();
        spelled.append("_");
        spelled.append(keys[j].0.as_str());
        if repeated {
            spelled.append("2");
        }
        let name = Ident(spelled);
        names.push(name);
        proof {
            lemma_deep_view_push(before, names, name);
            assert(spelled@ =~= member_key_name(members.deep_view(), i as int, keys[j as int]@));
            assert(name@ == wanted[j as int]);
            assert(names.deep_view() =~= wanted.take(j + 1));
        }
        j += 1;
    }
    assert(wanted.take(j as int) =~= wanted);
    names
}

impl RelationTableDescription {
    /// Whether the table can be made.
    pub fn can_materialize(&self, erd: &ERD) -> (possible: bool)
        ensures
            possible == self.deep_view().can_materialize(erd.deep_view()),
    {
        let relation = match erd.get_relation(self.relation.clone()) {
            Some(relation) => relation,
            None => { return false; },
        };
        if !all_typed(&relation.attributes()) {
            return false;
        }
        let members = relation.get_members();
        let ghost entities = members_of(erd.deep_view(), self.deep_view().relation);
        let mut i: usize = 0;
        while i < members.len()
            invariant
                i <= members.len(),
                entities == members.deep_view(),
                entities == members_of(erd.deep_view(), self.deep_view().relation),
                forall|j: int|
                    0 <= j < i ==> typed(erd.deep_view().entity_keys(#[trigger] entities[j])),
            decreases members.len() - i,
        {
            assert(entities[i as int] == members[i as int]@);
            if !all_typed(&erd.get_entity_ids(members[i].clone())) {
                assert(!typed(erd.deep_view().entity_keys(entities[i as int])));
                return false;
            }
            i += 1;
        }
        true
    }

    /// The table of the relation.
    pub fn to_table(&self, erd: &ERD) -> (table: Table)
        requires
            self.deep_view().can_materialize(erd.deep_view()),
        ensures
            table.deep_view() == self.deep_view().to_table(erd.deep_view()),
    {
        let ghost schema = erd.deep_view();
        let ghost view = self.deep_view();
        let ghost entities = members_of(schema, view.relation);
        let relation = erd.get_relation(self.relation.clone()).unwrap();
        let attributes = relation.attributes();
        let members = relation.get_members();
        let mut columns: Vec<TableColumn> = Vec::new();
        let names = attribute_idents(&attributes);
        proof {
            assert(columns.deep_view() =~= Seq::<TableColumnView>::empty());
        }
        push_referring_columns(&mut columns, &names, &attributes);
        proof {
            assert(columns.deep_view() =~= copied_columns(attributes.deep_view()));
        }
        let ghost copied = columns.deep_view();
        let mut primary_key_parts: Vec<Ident> = Vec::new();
        let mut used = StringHashSet::new();
        let mut i: usize = 0;
        proof {
            assert(entities.take(0) =~= Seq::<Seq<char>>::empty());
            assert(columns.deep_view() =~= copied + members_key_columns(schema, entities, 0));
            assert(primary_key_parts.deep_view() =~= members_key_names(schema, entities, 0));
        }
        while i < members.len()
            invariant
                i <= members.len(),
                schema == erd.deep_view(),
                entities == members.deep_view(),
                forall|j: int|
                    0 <= j < entities.len() ==> typed(schema.entity_keys(#[trigger] entities[j])),
                used@ == entities.take(i as int).to_set(),
                columns.deep_view() == copied + members_key_columns(schema, entities, i as nat),
                primary_key_parts.deep_view() == members_key_names(schema, entities, i as nat),
            decreases members.len() - i,
        {
            let member = &members[i];
            proof {
                assert(entities[i as int] == member@);
                assert(entities.take(i + 1) =~= entities.take(i as int).push(member@));
                entities.take(i as int).lemma_push_to_set_commute(member@);
            }
            let repeated = used.contains(member.0.as_str());
            used.insert(member.0.clone());
            let keys = erd.get_entity_ids(member.clone());
            let names = renamed_keys(&members, i, repeated, &attribute_idents(&keys));
            push_referring_columns(&mut columns, &names, &keys);
            let mut j: usize = 0;
            let ghost parts = primary_key_parts.deep_view();
            proof {
                assert(primary_key_parts.deep_view() =~= parts + names.deep_view().take(0));
            }
            while j < names.len()
                invariant
                    j <= names.len(),
                    primary_key_parts.deep_view() == parts + names.deep_view().take(j as int),
                decreases names.len() - j,
            {
                let ghost before = primary_key_parts;
                let part = names[j].clone();
                primary_key_parts.push(part);
                proof {
                    lemma_deep_view_push(before, primary_key_parts, part);
                    assert(primary_key_parts.deep_view() =~= parts + names.deep_view().take(
                        j + 1,
                    ));
                }
                j += 1;
            }
            proof {
                assert(names.deep_view().take(j as int) =~= names.deep_view());
                assert(columns.deep_view() =~= copied + members_key_columns(
                    schema,
                    entities,
                    (i + 1) as nat,
                ));
            }
            i += 1;
        }
        Table { name: self.name.clone(), columns, primary_key_parts }
    }
}

impl TableDescription {
    /// Whether the table can be made from the schema: what it needs of the
    /// schema is there, and every attribute that becomes a column has a
    /// data type.
    pub fn can_materialize(&self, erd: &ERD) -> (possible: bool)
        ensures
            possible == self.deep_view().can_materialize(erd.deep_view()),
    {
        match self {
            TableDescription::Entity(table) => table.can_materialize(erd),
            TableDescription::Relation(table) => table.can_materialize(erd),
        }
    }

    /// The table that is wished for.
    pub fn to_table(&self, erd: &ERD) -> (table: Table)
        requires
            self.deep_view().can_materialize(erd.deep_view()),
        ensures
            table.deep_view() == self.deep_view().to_table(erd.deep_view()),
    {
        match self {
            TableDescription::Entity(table) => table.to_table(erd),
            TableDescription::Relation(table) => table.to_table(erd),
        }
    }
}

/// The rule that the columns of one table refer to the columns of the
/// same names, place by place, of another.
#[derive(Debug, PartialEq, Eq)]
pub struct ForeignKeyConstraint {
    table_name: Ident,
    column_names: Vec<Ident>,
    other_table_name: Ident,
    other_table_column_names: Vec<Ident>,
}

/// What a [`ForeignKeyConstraint`] holds.
pub struct ForeignKeyConstraintView {
    pub table_name: Seq<char>,
    pub column_names: Seq<Seq<char>>,
    pub other_table_name: Seq<char>,
    pub other_table_column_names: Seq<Seq<char>>,
}

impl DeepView for ForeignKeyConstraint {
    type V = ForeignKeyConstraintView;

    closed spec fn deep_view(&self) -> ForeignKeyConstraintView {
        ForeignKeyConstraintView {
            table_name: self.table_name@,
            column_names: self.column_names.deep_view(),
            other_table_name: self.other_table_name@,
            other_table_column_names: self.other_table_column_names.deep_view(),
        }
    }
}

/// A rule that the rows of the tables obey.
#[derive(Debug, PartialEq, Eq)]
pub enum Constraint {
    ForeignKey(ForeignKeyConstraint),
}

/// What a [`Constraint`] holds.
pub enum ConstraintView {
    ForeignKey(ForeignKeyConstraintView),
}

impl DeepView for Constraint {
    type V = ConstraintView;

    open spec fn deep_view(&self) -> ConstraintView {
        match self {
            Constraint::ForeignKey(constraint) => ConstraintView::ForeignKey(
                constraint.deep_view(),
            ),
        }
    }
}

/// A physical schema: tables and the constraints between them.
#[derive(Debug, PartialEq, Eq)]
pub struct Physical {
    tables: Vec<Table>,
    constraints: Vec<Constraint>,
}

/// What a [`Physical`] holds.
pub struct PhysicalView {
    pub tables: Seq<TableView>,
    pub constraints: Seq<ConstraintView>,
}

impl DeepView for Physical {
    type V = PhysicalView;

    closed spec fn deep_view(&self) -> PhysicalView {
        PhysicalView {
            tables: self.tables.deep_view(),
            constraints: self.constraints.deep_view(),
        }
    }
}

impl EntityTableDescriptionView {
    /// The constraint of one foreign key of the table: its columns refer
    /// to the keys of the entity that it refers to, in the table of that
    /// entity.
    pub open spec fn key_constraint(
        self,
        erd: ERDView,
        tables: Seq<TableDescriptionView>,
        foreign_key: ForeignKeyView,
    ) -> ConstraintView {
        let keys = attribute_names(self.referred_keys(erd, foreign_key));
        ConstraintView::ForeignKey(
            ForeignKeyConstraintView {
                table_name: self.name,
                column_names: key_column_names(foreign_key.attribute_name, keys),
                other_table_name: table_of_entity(
                    tables,
                    self.referred_entity(erd, foreign_key).unwrap(),
                ).unwrap(),
                other_table_column_names: keys,
            },
        )
    }

    /// The constraints of the table: one for each foreign key, in their
    /// order.
    pub open spec fn constraints(self, erd: ERDView, tables: Seq<TableDescriptionView>) -> Seq<
        ConstraintView,
    > {
        Seq::new(
            self.foreign_keys.len(),
            |k: int| self.key_constraint(erd, tables, self.foreign_keys[k]),
        )
    }

    /// Whether every entity that a foreign key of the table refers to has
    /// a table.
    pub open spec fn can_refer(self, erd: ERDView, tables: Seq<TableDescriptionView>) -> bool {
        forall|k: int|
            0 <= k < self.foreign_keys.len() ==> match self.referred_entity(
                erd,
                #[trigger] self.foreign_keys[k],
            ) {
                Some(entity) => table_of_entity(tables, entity).is_some(),
                None => false,
            }
    }
}

impl RelationTableDescriptionView {
    /// The constraint of the member at place `i`: the columns that hold
    /// its keys refer to the keys of its entity, in the table of that
    /// entity.
    pub open spec fn member_constraint(
        self,
        erd: ERDView,
        tables: Seq<TableDescriptionView>,
        i: int,
    ) -> ConstraintView {
        let members = members_of(erd, self.relation);
        ConstraintView::ForeignKey(
            ForeignKeyConstraintView {
                table_name: self.name,
                column_names: member_key_names(erd, members, i),
                other_table_name: table_of_entity(tables, members[i]).unwrap(),
                other_table_column_names: attribute_names(erd.entity_keys(members[i])),
            },
        )
    }

    /// The constraints of the table: one for each member, in their order.
    pub open spec fn constraints(self, erd: ERDView, tables: Seq<TableDescriptionView>) -> Seq<
        ConstraintView,
    > {
        Seq::new(
            members_of(erd, self.relation).len(),
            |i: int| self.member_constraint(erd, tables, i),
        )
    }

    /// Whether the entity of every member has a table.
    pub open spec fn can_refer(self, erd: ERDView, tables: Seq<TableDescriptionView>) -> bool {
        forall|i: int|
            0 <= i < members_of(erd, self.relation).len() ==> table_of_entity(
                tables,
                #[trigger] members_of(erd, self.relation)[i],
            ).is_some()
    }
}

impl TableDescriptionView {
    /// The constraints that the table brings.
    pub open spec fn constraints(self, erd: ERDView, tables: Seq<TableDescriptionView>) -> Seq<
        ConstraintView,
    > {
        match self {
            TableDescriptionView::Entity(table) => table.constraints(erd, tables),
            TableDescriptionView::Relation(table) => table.constraints(erd, tables),
        }
    }

    /// Whether every entity that the table refers to has a table.
    pub open spec fn can_refer(self, erd: ERDView, tables: Seq<TableDescriptionView>) -> bool {
        match self {
            TableDescriptionView::Entity(table) => table.can_refer(erd, tables),
            TableDescriptionView::Relation(table) => table.can_refer(erd, tables),
        }
    }
}

/// The constraints that the first `n` tables bring, in their order.
pub open spec fn constraints_of(erd: ERDView, tables: Seq<TableDescriptionView>, n: nat) -> Seq<
    ConstraintView,
>
    decreases n,
{
    if n == 0 {
        Seq::empty()
    } else {
        constraints_of(erd, tables, (n - 1) as nat) + tables[n - 1].constraints(erd, tables)
    }
}

impl PhysicalDescriptionView {
    /// Whether the tables can be made: every attribute that becomes a
    /// column has a data type.
    pub open spec fn can_materialize(self) -> bool {
        forall|i: int|
            0 <= i < self.tables.len() ==> (#[trigger] self.tables[i]).can_materialize(self.erd)
    }

    /// The physical schema of the layout: the table of each wish, in the
    /// order of the wishes, and the constraints that each brings, in the
    /// same order.
    pub open spec fn to_physical(self) -> PhysicalView {
        PhysicalView {
            tables: self.tables.map_values(|t: TableDescriptionView| t.to_table(self.erd)),
            constraints: constraints_of(self.erd, self.tables, self.tables.len()),
        }
    }
}

/// The name of the first table that holds the entity.
fn table_name_of(tables: &Vec<TableDescription>, entity: &Ident) -> (name: Option<Ident>)
    ensures
        name.deep_view() == table_of_entity(tables.deep_view(), entity@),
{
    let ghost held = table_entities(tables.deep_view());
    let mut i: usize = 0;
    while i < tables.len()
        invariant
            i <= tables.len(),
            held == table_entities(tables.deep_view()),
            forall|j: int| 0 <= j < i ==> held[j] != Some(entity@),
        decreases tables.len() - i,
    {
        assert(tables.deep_view()[i as int] == tables[i as int].deep_view());
        match &tables[i] {
            TableDescription::Entity(table) => {
                if table.entity.same_as(entity) {
                    proof {
                        lemma_first_position_found(held, Some(entity@), i as int);
                    }
                    return Some(table.name.clone());
                }
            },
            TableDescription::Relation(_) => {},
        }
        i += 1;
    }
    proof {
        lemma_first_position(held, Some(entity@));
    }
    None
}

impl EntityTableDescription {
    /// Adds to `constraints` the constraints of the table.
    fn push_constraints(
        &self,
        erd: &ERD,
        tables: &Vec<TableDescription>,
        constraints: &mut Vec<Constraint>,
    )
        requires
            self.deep_view().can_refer(erd.deep_view(), tables.deep_view()),
        ensures
            final(constraints).deep_view() == old(constraints).deep_view()
                + self.deep_view().constraints(erd.deep_view(), tables.deep_view()),
    {
        let ghost schema = erd.deep_view();
        let ghost wishes = tables.deep_view();
        let ghost view = self.deep_view();
        let ghost wanted = view.constraints(schema, wishes);
        let mut k: usize = 0;
        assert(constraints.deep_view() =~= old(constraints).deep_view() + wanted.take(0));
        while k < self.foreign_keys.len()
            invariant
                k <= self.foreign_keys.len(),
                schema == erd.deep_view(),
                wishes == tables.deep_view(),
                view == self.deep_view(),
                view.can_refer(schema, wishes),
                wanted == view.constraints(schema, wishes),
                constraints.deep_view() == old(constraints).deep_view() + wanted.take(k as int),
            decreases self.foreign_keys.len() - k,
        {
            let foreign_key = &self.foreign_keys[k];
            assert(view.foreign_keys[k as int] == foreign_key.deep_view());
            let referred = self.referred_entity(erd, foreign_key).unwrap();
            let keys = attribute_idents(&erd.get_entity_ids(referred.clone()));
            let constraint = Constraint::ForeignKey(
                ForeignKeyConstraint {
                    table_name: self.name.clone(),
                    column_names: foreign_key_column_names(&foreign_key.attribute_name, &keys),
                    other_table_name: table_name_of(tables, &referred).unwrap(),
                    other_table_column_names: keys,
                },
            );
            let ghost before = *constraints;
            constraints.push(constraint);
            proof {
                lemma_deep_view_push(before, *constraints, constraint);
                assert(constraint.deep_view() == wanted[k as int]);
                assert(constraints.deep_view() =~= old(constraints).deep_view() + wanted.take(
                    k + 1,
                ));
            }
            k += 1;
        }
        assert(wanted.take(k as int) =~= wanted);
    }
}

impl RelationTableDescription {
    /// Adds to `constraints` the constraints of the table.
    fn push_constraints(
        &self,
        erd: &ERD,
        tables: &Vec<TableDescription>,
        constraints: &mut Vec<Constraint>,
    )
        requires
            erd.deep_view().find_relation(self.deep_view().relation).is_some(),
            self.deep_view().can_refer(erd.deep_view(), tables.deep_view()),
        ensures
            final(constraints).deep_view() == old(constraints).deep_view()
                + self.deep_view().constraints(erd.deep_view(), tables.deep_view()),
    {
        let ghost schema = erd.deep_view();
        let ghost wishes = tables.deep_view();
        let ghost view = self.deep_view();
        let ghost wanted = view.constraints(schema, wishes);
        let ghost entities = members_of(schema, view.relation);
        let relation = erd.get_relation(self.relation.clone()).unwrap();
        let members = relation.get_members();
        let mut used = StringHashSet::new();
        let mut i: usize = 0;
        proof {
            assert(entities.take(0) =~= Seq::<Seq<char>>::empty());
            assert(constraints.deep_view() =~= old(constraints).deep_view() + wanted.take(0));
        }
        while i < members.len()
            invariant
                i <= members.len(),
                schema == erd.deep_view(),
                wishes == tables.deep_view(),
                view == self.deep_view(),
                entities == members_of(schema, view.relation),
                entities == members.deep_view(),
                view.can_refer(schema, wishes),
                wanted == view.constraints(schema, wishes),
                used@ == entities.take(i as int).to_set(),
                constraints.deep_view() == old(constraints).deep_view() + wanted.take(i as int),
            decreases members.len() - i,
        {
            let member = &members[i];
            proof {
                assert(entities[i as int] == member@);
                assert(entities.take(i + 1) =~= entities.take(i as int).push(member@));
                entities.take(i as int).lemma_push_to_set_commute(member@);
                assert(table_of_entity(wishes, members_of(schema, view.relation)[i as int]).is_some());
            }
            let repeated = used.contains(member.0.as_str());
            used.insert(member.0.clone());
            let keys = attribute_idents(&erd.get_entity_ids(member.clone()));
            let constraint = Constraint::ForeignKey(
                ForeignKeyConstraint {
                    table_name: self.name.clone(),
                    column_names: renamed_keys(&members, i, repeated, &keys),
                    other_table_name: table_name_of(tables, member).unwrap(),
                    other_table_column_names: keys,
                },
            );
            let ghost before = *constraints;
            constraints.push(constraint);
            proof {
                lemma_deep_view_push(before, *constraints, constraint);
                assert(constraint.deep_view() == wanted[i as int]);
                assert(constraints.deep_view() =~= old(constraints).deep_view() + wanted.take(
                    i + 1,
                ));
            }
            i += 1;
        }
        assert(wanted.take(i as int) =~= wanted);
    }
}

impl PhysicalDescription {
    /// Whether the tables can be made: every attribute that becomes a
    /// column has a data type.
    pub fn can_materialize(&self) -> (possible: bool)
        ensures
            possible == self.deep_view().can_materialize(),
    {
        let mut i: usize = 0;
        while i < self.tables.len()
            invariant
                i <= self.tables.len(),
                forall|j: int|
                    0 <= j < i ==> (#[trigger] self.deep_view().tables[j]).can_materialize(
                        self.deep_view().erd,
                    ),
            decreases self.tables.len() - i,
        {
            assert(self.deep_view().tables[i as int] == self.tables[i as int].deep_view());
            if !self.tables[i].can_materialize(&self.erd) {
                return false;
            }
            i += 1;
        }
        true
    }

    /// The physical schema of the layout.
    pub fn to_physical(&self) -> (physical: Physical)
        requires
            self.deep_view().can_materialize(),
        ensures
            physical.deep_view() == self.deep_view().to_physical(),
    {
        proof {
            use_type_invariant(self);
            use_type_invariant(&self.erd);
        }
        let ghost schema = self.erd.deep_view();
        let ghost wishes = self.tables.deep_view();
        let ghost wanted = wishes.map_values(|t: TableDescriptionView| t.to_table(schema));
        let mut tables: Vec<Table> = Vec::new();
        let mut constraints: Vec<Constraint> = Vec::new();
        let mut i: usize = 0;
        proof {
            assert(tables.deep_view() =~= wanted.take(0));
            assert(constraints.deep_view() =~= constraints_of(schema, wishes, 0));
        }
        while i < self.tables.len()
            invariant
                i <= self.tables.len(),
                schema == self.erd.deep_view(),
                wishes == self.tables.deep_view(),
                schema.well_formed(),
                physical_errors(schema, wishes).len() == 0,
                forall|j: int|
                    0 <= j < wishes.len() ==> (#[trigger] wishes[j]).can_materialize(schema),
                wanted == wishes.map_values(|t: TableDescriptionView| t.to_table(schema)),
                tables.deep_view() == wanted.take(i as int),
                constraints.deep_view() == constraints_of(schema, wishes, i as nat),
            decreases self.tables.len() - i,
        {
            let wish = &self.tables[i];
            proof {
                assert(wishes[i as int] == wish.deep_view());
                assert(wishes[i as int].can_materialize(schema));
                lemma_can_refer(schema, wishes, i as int);
            }
            let ghost before = tables;
            let table = wish.to_table(&self.erd);
            tables.push(table);
            proof {
                lemma_deep_view_push(before, tables, table);
                assert(tables.deep_view() =~= wanted.take(i + 1));
            }
            match wish {
                TableDescription::Entity(entity_table) => {
                    entity_table.push_constraints(&self.erd, &self.tables, &mut constraints);
                },
                TableDescription::Relation(relation_table) => {
                    relation_table.push_constraints(&self.erd, &self.tables, &mut constraints);
                },
            }
            i += 1;
        }
        assert(wanted.take(i as int) =~= wanted);
        Physical { tables, constraints }
    }
}

/// The names of columns as an SQL product spells them, in their order.
pub open spec fn column_idents(names: Seq<Seq<char>>, sql: SQL) -> Seq<Seq<char>> {
    names.map_values(|name: Seq<char>| sql.column_ident(name))
}

/// The names of columns as an SQL product spells them.
fn spelled_columns(names: &Vec<Ident>, sql: SQL) -> (spelled: Vec<String>)
    ensures
        spelled.deep_view() == column_idents(names.deep_view(), sql),
{
    let ghost wanted = column_idents(names.deep_view(), sql);
    let mut spelled: Vec<String> = Vec::new();
    let mut i: usize = 0;
    while i < names.len()
        invariant
            i <= names.len(),
            wanted == column_idents(names.deep_view(), sql),
            spelled.deep_view() == wanted.take(i as int),
        decreases names.len() - i,
    {
        let ghost before = spelled;
        let name = sql.to_column_ident(&names[i]);
        spelled.push(name);
        proof {
            lemma_deep_view_push(before, spelled, name);
            assert(spelled.deep_view() =~= wanted.take(i + 1));
        }
        i += 1;
    }
    assert(wanted.take(i as int) =~= wanted);
    spelled
}

impl TableColumnView {
    /// The line of a column in the statement that creates its table: the
    /// name, a blank, the type and a comma.
    pub open spec fn sql_create_line(self, sql: SQL) -> Seq<char> {
        sql.column_ident(self.name) + " "@ + sql.data_type(self.datatype) + ","@
    }
}

impl TableColumn {
    /// Appends to `s` the line of the column.
    pub fn write_sql_create_lines(&self, s: &mut String, sql: SQL)
        ensures
            final(s)@ == old(s)@ + self.deep_view().sql_create_line(sql),
    {
        s.append(sql.to_column_ident(&self.name).as_str());
        s.append(" ");
        s.append(sql.to_data_type(&self.datatype).as_str());
        s.append(",");
        assert(s@ =~= old(s)@ + self.deep_view().sql_create_line(sql));
    }
}

impl TableView {
    /// The lines of the first `n` columns, each followed by a line break.
    pub open spec fn sql_column_lines(self, sql: SQL, n: nat) -> Seq<char>
        decreases n,
    {
        if n == 0 {
            Seq::empty()
        } else {
            self.sql_column_lines(sql, (n - 1) as nat) + self.columns[n - 1].sql_create_line(sql)
                + "\n"@
        }
    }

    /// The statement that creates the table: `CREATE TABLE`, the name and
    /// an opening bracket; a line for each column; the primary key, its
    /// columns between commas; and the closing bracket with a semicolon.
    pub open spec fn sql_create(self, sql: SQL) -> Seq<char> {
        "CREATE TABLE "@ + self.name + " (\n"@ + self.sql_column_lines(sql, self.columns.len())
            + "PRIMARY KEY ("@ + joined(column_idents(self.primary_key_parts, sql), ","@) + ")\n"@
            + ");"@
    }
}

impl Table {
    /// Appends to `s` the statement that creates the table.
    pub fn write_sql_create(&self, s: &mut String, sql: SQL)
        ensures
            final(s)@ == old(s)@ + self.deep_view().sql_create(sql),
    {
        let ghost view = self.deep_view();
        s.append("CREATE TABLE ");
        s.append(self.name.0.as_str());
        s.append(" (\n");
        let ghost head = s@;
        let mut i: usize = 0;
        assert(s@ =~= head + view.sql_column_lines(sql, 0));
        while i < self.columns.len()
            invariant
                i <= self.columns.len(),
                view == self.deep_view(),
                s@ == head + view.sql_column_lines(sql, i as nat),
            decreases self.columns.len() - i,
        {
            assert(view.columns[i as int] == self.columns[i as int].deep_view());
            self.columns[i].write_sql_create_lines(s, sql);
            s.append("\n");
            assert(s@ =~= head + view.sql_column_lines(sql, (i + 1) as nat));
            i += 1;
        }
        s.append("PRIMARY KEY (");
        push_joined(s, &spelled_columns(&self.primary_key_parts, sql), ",");
        s.append(")\n");
        s.append(");");
        assert(s@ =~= old(s)@ + view.sql_create(sql));
    }
}

impl ForeignKeyConstraintView {
    /// The statement that adds the constraint: the columns of the table,
    /// between commas, refer to the columns of the other table.
    pub open spec fn sql_create(self, sql: SQL) -> Seq<char> {
        "ALTER TABLE "@ + self.table_name + " ADD FOREIGN KEY ("@ + joined(
            column_idents(self.column_names, sql),
            ","@,
        ) + ") REFERENCES "@ + self.other_table_name + "("@ + joined(
            column_idents(self.other_table_column_names, sql),
            ","@,
        ) + ");"@
    }
}

impl ForeignKeyConstraint {
    /// Appends to `s` the statement that adds the constraint.
    pub fn write_sql_create(&self, s: &mut String, sql: SQL)
        ensures
            final(s)@ == old(s)@ + self.deep_view().sql_create(sql),
    {
        s.append("ALTER TABLE ");
        s.append(self.table_name.0.as_str());
        s.append(" ADD FOREIGN KEY (");
        push_joined(s, &spelled_columns(&self.column_names, sql), ",");
        s.append(") REFERENCES ");
        s.append(self.other_table_name.0.as_str());
        s.append("(");
        push_joined(s, &spelled_columns(&self.other_table_column_names, sql), ",");
        s.append(");");
        assert(s@ =~= old(s)@ + self.deep_view().sql_create(sql));
    }
}

impl ConstraintView {
    /// The statement that adds the constraint.
    pub open spec fn sql_create(self, sql: SQL) -> Seq<char> {
        match self {
            ConstraintView::ForeignKey(constraint) => constraint.sql_create(sql),
        }
    }
}

impl Constraint {
    /// Appends to `s` the statement that adds the constraint.
    pub fn write_sql_create(&self, s: &mut String, sql: SQL)
        ensures
            final(s)@ == old(s)@ + self.deep_view().sql_create(sql),
    {
        match self {
            Constraint::ForeignKey(constraint) => constraint.write_sql_create(s, sql),
        }
    }
}

impl PhysicalView {
    /// The statements that create the first `n` tables, each followed by a
    /// line break.
    pub open spec fn sql_tables(self, sql: SQL, n: nat) -> Seq<char>
        decreases n,
    {
        if n == 0 {
            Seq::empty()
        } else {
            self.sql_tables(sql, (n - 1) as nat) + self.tables[n - 1].sql_create(sql) + "\n"@
        }
    }

    /// The statements that add the first `n` constraints, each followed by
    /// a line break.
    pub open spec fn sql_constraints(self, sql: SQL, n: nat) -> Seq<char>
        decreases n,
    {
        if n == 0 {
            Seq::empty()
        } else {
            self.sql_constraints(sql, (n - 1) as nat) + self.constraints[n - 1].sql_create(sql)
                + "\n"@
        }
    }

    /// The schema in SQL: the statements that create the tables, in their
    /// order, then those that add the constraints, in theirs.
    pub open spec fn sql_create(self, sql: SQL) -> Seq<char> {
        self.sql_tables(sql, self.tables.len()) + self.sql_constraints(sql, self.constraints.len())
    }
}

impl Physical {
    /// Appends to `s` the schema in the SQL of the given product.
    pub fn write_sql_create(&self, s: &mut String, sql: SQL)
        ensures
            final(s)@ == old(s)@ + self.deep_view().sql_create(sql),
    {
        let ghost view = self.deep_view();
        let mut i: usize = 0;
        assert(s@ =~= old(s)@ + view.sql_tables(sql, 0));
        while i < self.tables.len()
            invariant
                i <= self.tables.len(),
                view == self.deep_view(),
                s@ == old(s)@ + view.sql_tables(sql, i as nat),
            decreases self.tables.len() - i,
        {
            assert(view.tables[i as int] == self.tables[i as int].deep_view());
            self.tables[i].write_sql_create(s, sql);
            s.append("\n");
            assert(s@ =~= old(s)@ + view.sql_tables(sql, (i + 1) as nat));
            i += 1;
        }
        let ghost head = s@;
        let mut j: usize = 0;
        assert(s@ =~= head + view.sql_constraints(sql, 0));
        while j < self.constraints.len()
            invariant
                j <= self.constraints.len(),
                view == self.deep_view(),
                head == old(s)@ + view.sql_tables(sql, view.tables.len()),
                s@ == head + view.sql_constraints(sql, j as nat),
            decreases self.constraints.len() - j,
        {
            assert(view.constraints[j as int] == self.constraints[j as int].deep_view());
            self.constraints[j].write_sql_create(s, sql);
            s.append("\n");
            assert(s@ =~= head + view.sql_constraints(sql, (j + 1) as nat));
            j += 1;
        }
        assert(s@ =~= old(s)@ + view.sql_create(sql));
    }
}

/// Why a document gave no layout: it could not be read, what it declares
/// has faults, or the layout that it wishes for has faults.
#[derive(Debug, PartialEq, Eq)]
pub enum PhysicalFromScriptError {
    ParsingError(ConsumeError),
    ERDError(Vec<ERDError>),
    PhysicalError(Vec<PhysicalError>),
}

impl PhysicalFromScriptError {
    /// The same faults, as the failure of a document.
    pub fn from(v: PhysicalERDError) -> (error: PhysicalFromScriptError)
        ensures
            match v {
                PhysicalERDError::ERD(errors) => error == PhysicalFromScriptError::ERDError(errors),
                PhysicalERDError::Physical(errors) => error
                    == PhysicalFromScriptError::PhysicalError(errors),
            },
    {
        match v {
            PhysicalERDError::ERD(errors) => PhysicalFromScriptError::ERDError(errors),
            PhysicalERDError::Physical(errors) => PhysicalFromScriptError::PhysicalError(errors),
        }
    }
}

impl PhysicalDescription {
    /// Makes the layout of a document from the records that its reader
    /// found. Where a record holds a word that the language does not have,
    /// the document counts as not read; else the result is that of
    /// [`PhysicalDescription::try_from`] on the declarations that the
    /// records stand for.
    pub fn from_script(records: &Vec<ParserExpr>) -> (made: Result<
        PhysicalDescription,
        PhysicalFromScriptError,
    >)
        ensures
            match declarations_of(records.deep_view()) {
                None => made == Err::<PhysicalDescription, PhysicalFromScriptError>(
                    PhysicalFromScriptError::ParsingError(ConsumeError::UnknownParseError),
                ),
                Some(declarations) => match made {
                    Ok(description) => {
                        &&& description.deep_view().erd == declared_schema(declarations)
                        &&& description.deep_view().tables == declared_tables(declarations)
                        &&& declared_schema(declarations).errors().len() == 0
                        &&& physical_errors(
                            declared_schema(declarations),
                            declared_tables(declarations),
                        ).len() == 0
                    },
                    Err(PhysicalFromScriptError::ERDError(errors)) => {
                        &&& errors.deep_view() == declared_schema(declarations).errors()
                        &&& errors.len() > 0
                    },
                    Err(PhysicalFromScriptError::PhysicalError(errors)) => {
                        &&& declared_schema(declarations).errors().len() == 0
                        &&& errors.deep_view() == physical_errors(
                            declared_schema(declarations),
                            declared_tables(declarations),
                        )
                        &&& errors.len() > 0
                    },
                    Err(PhysicalFromScriptError::ParsingError(_)) => false,
                },
            },
    {
        let declarations = match read_declarations(records) {
            Ok(declarations) => declarations,
            Err(error) => { return Err(PhysicalFromScriptError::ParsingError(error)); },
        };
        match PhysicalDescription::try_from(declarations) {
            Ok(description) => Ok(description),
            Err(error) => Err(PhysicalFromScriptError::from(error)),
        }
    }
}

impl Clone for PhysicalError {
    fn clone(&self) -> (copy: Self)
        ensures
            copy == *self,
    {
        match self {
            PhysicalError::DuplicateTableName(table) => PhysicalError::DuplicateTableName(
                table.clone(),
            ),
            PhysicalError::DuplicateColumnNameInTable(column, table) => {
                PhysicalError::DuplicateColumnNameInTable(column.clone(), table.clone())
            },
            PhysicalError::UnknownEntityOrRelationInTable(held, table) => {
                PhysicalError::UnknownEntityOrRelationInTable(held.clone(), table.clone())
            },
            PhysicalError::ConvertedMoreThanOnce(held) => PhysicalError::ConvertedMoreThanOnce(
                held.clone(),
            ),
            PhysicalError::ForgottenEntityOrRelation(held) => {
                PhysicalError::ForgottenEntityOrRelation(held.clone())
            },
            PhysicalError::UnsupportedRelationDegree(relation) => {
                PhysicalError::UnsupportedRelationDegree(relation.clone())
            },
            PhysicalError::ForeignKeyToEntityInTable(named, table) => {
                PhysicalError::ForeignKeyToEntityInTable(named.clone(), table.clone())
            },
            PhysicalError::ImpossibleForeignKey(relation, table) => {
                PhysicalError::ImpossibleForeignKey(relation.clone(), table.clone())
            },
        }
    }
}

impl PhysicalErrorView {
    /// The sentence that tells a reader of the fault.
    pub open spec fn message(self) -> Seq<char> {
        match self {
            PhysicalErrorView::DuplicateTableName(table) => "Table name "@ + table
                + " is used multiple times."@,
            PhysicalErrorView::DuplicateColumnNameInTable(column, table) => {
                "Multiple columns named "@ + column + " in table "@ + table + "."@
            },
            PhysicalErrorView::UnknownEntityOrRelationInTable(held, table) => {
                "Unknown entity or relation "@ + held + " in table "@ + table + "."@
            },
            PhysicalErrorView::ConvertedMoreThanOnce(held) => "Relation or entity "@ + held
                + " is converted more than once to a table."@,
            PhysicalErrorView::ForgottenEntityOrRelation(held) => "Relation or entity "@ + held
                + " is not converted to the physical representation."@,
            PhysicalErrorView::UnsupportedRelationDegree(relation) => "Relation "@ + relation
                + " has a degree different from 2 and that is (currently) not supported. Please convert the relation to relations of degree 2."@,
            PhysicalErrorView::ImpossibleForeignKey(relation, table) => {
                "It is impossible to create table "@ + table + " with foreign key "@ + relation
                    + "."@
            },
            PhysicalErrorView::ForeignKeyToEntityInTable(named, table) => {
                "You created a foreign key to the entity "@ + named + " in table "@ + table
                    + " instead of to a relation."@
            },
        }
    }
}

impl PhysicalError {
    /// The sentence that tells a reader of the fault.
    pub fn to_string(&self) -> (text: String)
        ensures
            text@ == self.deep_view().message(),
    {
        match self {
            PhysicalError::DuplicateTableName(table) => {
                let mut text = String::from_str("Table name ");
                text.append(table.0.as_str());
                text.append(" is used multiple times.");
                text
            },
            PhysicalError::DuplicateColumnNameInTable(column, table) => {
                let mut text = String::from_str("Multiple columns named ");
                text.append(column.0.as_str());
                text.append(" in table ");
                text.append(table.0.as_str());
                text.append(".");
                text
            },
            PhysicalError::UnknownEntityOrRelationInTable(held, table) => {
                let mut text = String::from_str("Unknown entity or relation ");
                text.append(held.0.as_str());
                text.append(" in table ");
                text.append(table.0.as_str());
                text.append(".");
                text
            },
            PhysicalError::ConvertedMoreThanOnce(held) => {
                let mut text = String::from_str("Relation or entity ");
                text.append(held.0.as_str());
                text.append(" is converted more than once to a table.");
                text
            },
            PhysicalError::ForgottenEntityOrRelation(held) => {
                let mut text = String::from_str("Relation or entity ");
                text.append(held.0.as_str());
                text.append(" is not converted to the physical representation.");
                text
            },
            PhysicalError::UnsupportedRelationDegree(relation) => {
                let mut text = String::from_str("Relation ");
                text.append(relation.0.as_str());
                text.append(
                    " has a degree different from 2 and that is (currently) not supported. Please convert the relation to relations of degree 2.",
                );
                text
            },
            PhysicalError::ImpossibleForeignKey(relation, table) => {
                let mut text = String::from_str("It is impossible to create table ");
                text.append(table.0.as_str());
                text.append(" with foreign key ");
                text.append(relation.0.as_str());
                text.append(".");
                text
            },
            PhysicalError::ForeignKeyToEntityInTable(named, table) => {
                let mut text = String::from_str("You created a foreign key to the entity ");
                text.append(named.0.as_str());
                text.append(" in table ");
                text.append(table.0.as_str());
                text.append(" instead of to a relation.");
                text
            },
        }
    }
}

impl TableColumn {
    /// The name of the column.
    pub fn name(&self) -> (name: &Ident)
        ensures
            name@ == self.deep_view().name,
    {
        &self.name
    }

    /// The type of the column.
    pub fn datatype(&self) -> (datatype: DataType)
        ensures
            datatype == self.deep_view().datatype,
    {
        self.datatype
    }
}

impl Table {
    /// The name of the table.
    pub fn name(&self) -> (name: &Ident)
        ensures
            name@ == self.deep_view().name,
    {
        &self.name
    }

    /// The columns of the table, in their order.
    pub fn columns(&self) -> (columns: &Vec<TableColumn>)
        ensures
            columns.deep_view() == self.deep_view().columns,
    {
        &self.columns
    }

    /// The names of the columns that make up the primary key.
    pub fn primary_key_parts(&self) -> (parts: &Vec<Ident>)
        ensures
            parts.deep_view() == self.deep_view().primary_key_parts,
    {
        &self.primary_key_parts
    }
}

impl ForeignKeyConstraint {
    /// The name of the table whose columns refer to another.
    pub fn table_name(&self) -> (name: &Ident)
        ensures
            name@ == self.deep_view().table_name,
    {
        &self.table_name
    }

    /// The names of the columns that refer to the other table.
    pub fn column_names(&self) -> (names: &Vec<Ident>)
        ensures
            names.deep_view() == self.deep_view().column_names,
    {
        &self.column_names
    }

    /// The name of the table that is referred to.
    pub fn other_table_name(&self) -> (name: &Ident)
        ensures
            name@ == self.deep_view().other_table_name,
    {
        &self.other_table_name
    }

    /// The names of the columns that are referred to.
    pub fn other_table_column_names(&self) -> (names: &Vec<Ident>)
        ensures
            names.deep_view() == self.deep_view().other_table_column_names,
    {
        &self.other_table_column_names
    }
}

impl Physical {
    /// The tables, in their order.
    pub fn tables(&self) -> (tables: &Vec<Table>)
        ensures
            tables.deep_view() == self.deep_view().tables,
    {
        &self.tables
    }

    /// The constraints, in their order.
    pub fn constraints(&self) -> (constraints: &Vec<Constraint>)
        ensures
            constraints.deep_view() == self.deep_view().constraints,
    {
        &self.constraints
    }
}

} // verus!

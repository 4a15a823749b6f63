//! What holds of every layout of a schema in tables that the check finds
//! free of faults, and of the tables that are made from it.

use crate::ast::{AttributeType, AttributeView, DataType, ForeignKeyView};
use crate::erd::{attribute_names, lemma_first_other_is_member, ERDView};
use crate::physical::{
    check_foreign_key, check_foreign_keys, check_table, check_tables, copied_columns, forgotten,
    key_column_names, member_key_name, member_key_names, members_key_columns, members_key_names, members_of,
    own_columns, physical_errors, referring_column, referring_columns, table_entities,
    table_of_entity, EntityTableDescriptionView, KeyProgress, PhysicalErrorView, Progress,
    TableColumnView, TableDescriptionView,
};
use crate::views::{lemma_first_position, lemma_push_no_duplicates};
use vstd::prelude::*;

verus! {

/// A foreign key that names a relation of the schema without two members
/// is reported as one of an unsupported degree, whatever the table and
/// whatever was checked before.
pub proof fn lemma_degree_is_reported(
    erd: ERDView,
    table: EntityTableDescriptionView,
    before: KeyProgress,
    foreign_key: ForeignKeyView,
)
    requires
        erd.find_relation(foreign_key.relation).is_some(),
        erd.find_relation(foreign_key.relation).unwrap().members.len() != 2,
    ensures
        check_foreign_key(erd, table, before, foreign_key).errors.last()
            == PhysicalErrorView::UnsupportedRelationDegree(
            erd.find_relation(foreign_key.relation).unwrap().name,
        ),
        check_foreign_key(erd, table, before, foreign_key).covered == before.covered,
{
}

/// A foreign key that names a relation of two members which cannot be
/// folded into the table of the table's entity is reported as impossible,
/// and the relation does not count as laid out by it.
pub proof fn lemma_impossible_is_reported(
    erd: ERDView,
    table: EntityTableDescriptionView,
    before: KeyProgress,
    foreign_key: ForeignKeyView,
)
    requires
        erd.find_relation(foreign_key.relation).is_some(),
        erd.find_relation(foreign_key.relation).unwrap().members.len() == 2,
        !erd.find_relation(foreign_key.relation).unwrap().can_work_with_foreign_key(table.entity),
    ensures
        check_foreign_key(erd, table, before, foreign_key).errors.last()
            == PhysicalErrorView::ImpossibleForeignKey(foreign_key.relation, table.name),
        check_foreign_key(erd, table, before, foreign_key).covered == before.covered,
{
}

/// The relations that the foreign keys of a table name, in their order.
pub open spec fn key_relations(table: EntityTableDescriptionView) -> Seq<Seq<char>> {
    table.foreign_keys.map_values(|f: ForeignKeyView| f.relation)
}

/// What one table lays out: the entity or relation that it holds, then the
/// relations that its foreign keys fold into it.
pub open spec fn table_claims(table: TableDescriptionView) -> Seq<Seq<char>> {
    match table {
        TableDescriptionView::Entity(entity_table) => seq![entity_table.entity] + key_relations(
            entity_table,
        ),
        TableDescriptionView::Relation(relation_table) => seq![relation_table.relation],
    }
}

/// What the first `n` tables lay out, in their order.
pub open spec fn claims(tables: Seq<TableDescriptionView>, n: nat) -> Seq<Seq<char>>
    decreases n,
{
    if n == 0 {
        Seq::empty()
    } else {
        claims(tables, (n - 1) as nat) + table_claims(tables[n - 1])
    }
}

/// The names of the tables, in their order.
pub open spec fn table_names(tables: Seq<TableDescriptionView>) -> Seq<Seq<char>> {
    tables.map_values(|t: TableDescriptionView| t.name())
}

/// Whether a foreign key of the table of `entity` names a relation of the
/// schema that can be folded into that table.
pub open spec fn foreign_key_sound(erd: ERDView, entity: Seq<char>, foreign_key: ForeignKeyView)
    -> bool {
    match erd.find_relation(foreign_key.relation) {
        Some(relation) => relation.can_work_with_foreign_key(entity),
        None => false,
    }
}

/// Whether the schema has what a table is to hold, and every foreign key of
/// the table is sound.
pub open spec fn table_sound(erd: ERDView, table: TableDescriptionView) -> bool {
    match table {
        TableDescriptionView::Entity(entity_table) => {
            &&& erd.has_entity(entity_table.entity)
            &&& forall|k: int|
                0 <= k < entity_table.foreign_keys.len() ==> foreign_key_sound(
                    erd,
                    entity_table.entity,
                    #[trigger] entity_table.foreign_keys[k],
                )
        },
        TableDescriptionView::Relation(relation_table) => erd.has_relation(
            relation_table.relation,
        ),
    }
}

/// The faults never get fewer while the foreign keys of a table are
/// checked.
pub proof fn lemma_foreign_keys_keep_errors(
    erd: ERDView,
    table: EntityTableDescriptionView,
    start: KeyProgress,
    n: nat,
)
    ensures
        check_foreign_keys(erd, table, start, n).errors.len() >= start.errors.len(),
    decreases n,
{
    if n > 0 {
        lemma_foreign_keys_keep_errors(erd, table, start, (n - 1) as nat);
    }
}

/// The faults never get fewer while the tables are checked.
pub proof fn lemma_tables_keep_errors(
    erd: ERDView,
    tables: Seq<TableDescriptionView>,
    n: nat,
    m: nat,
)
    requires
        n <= m,
    ensures
        check_tables(erd, tables, n).errors.len() <= check_tables(erd, tables, m).errors.len(),
    decreases m,
{
    if n < m {
        lemma_tables_keep_errors(erd, tables, n, (m - 1) as nat);
        let before = check_tables(erd, tables, (m - 1) as nat);
        match tables[m - 1] {
            TableDescriptionView::Entity(entity_table) => {
                let named = if before.table_names.contains(entity_table.name) {
                    before.errors.push(PhysicalErrorView::DuplicateTableName(entity_table.name))
                } else {
                    before.errors
                };
                lemma_foreign_keys_keep_errors(
                    erd,
                    entity_table,
                    KeyProgress {
                        columns: attribute_names(erd.entity_attributes(entity_table.entity)).to_set(),
                        covered: before.covered.insert(entity_table.entity),
                        errors: named,
                    },
                    entity_table.foreign_keys.len(),
                );
            },
            TableDescriptionView::Relation(_) => {},
        }
    }
}

/// Where the check of the first `n` foreign keys of a table ends without a
/// fault, each of them is sound, and what is laid out has grown by the
/// relations that they name, none of which was laid out before.
pub proof fn lemma_foreign_keys_sound(
    erd: ERDView,
    table: EntityTableDescriptionView,
    start: KeyProgress,
    claimed: Seq<Seq<char>>,
    n: nat,
)
    requires
        n <= table.foreign_keys.len(),
        start.covered == claimed.to_set(),
        claimed.no_duplicates(),
        check_foreign_keys(erd, table, start, n).errors.len() == 0,
    ensures
        start.errors.len() == 0,
        check_foreign_keys(erd, table, start, n).covered == (claimed + key_relations(table).take(
            n as int,
        )).to_set(),
        (claimed + key_relations(table).take(n as int)).no_duplicates(),
        forall|k: int|
            0 <= k < n ==> foreign_key_sound(erd, table.entity, #[trigger] table.foreign_keys[k]),
    decreases n,
{
    let relations = key_relations(table);
    if n == 0 {
        assert(claimed + relations.take(0) =~= claimed);
    } else {
        let before = check_foreign_keys(erd, table, start, (n - 1) as nat);
        lemma_foreign_keys_sound(erd, table, start, claimed, (n - 1) as nat);
        let foreign_key = table.foreign_keys[n - 1];
        let earlier = claimed + relations.take(n - 1);
        assert(claimed + relations.take(n as int) =~= earlier.push(foreign_key.relation));
        earlier.lemma_push_to_set_commute(foreign_key.relation);
        lemma_push_no_duplicates(earlier, foreign_key.relation);
    }
}

/// The state in which the check of the foreign keys of a table begins.
pub open spec fn keys_start(
    erd: ERDView,
    before: Progress,
    table: EntityTableDescriptionView,
) -> KeyProgress {
    KeyProgress {
        columns: attribute_names(erd.entity_attributes(table.entity)).to_set(),
        covered: before.covered.insert(table.entity),
        errors: before.errors,
    }
}

/// Where the check of a table ends without a fault, there was none
/// before, the name of the table is new, what it holds is in the schema
/// and was not laid out, and the check of its foreign keys found no fault.
pub proof fn lemma_table_step(erd: ERDView, before: Progress, table: TableDescriptionView)
    requires
        check_table(erd, before, table).errors.len() == 0,
    ensures
        before.errors.len() == 0,
        !before.table_names.contains(table.name()),
        check_table(erd, before, table).table_names == before.table_names.insert(table.name()),
        table.resolves(erd),
        !before.covered.contains(table.er()),
        match table {
            TableDescriptionView::Entity(entity_table) => {
                let keys = check_foreign_keys(
                    erd,
                    entity_table,
                    keys_start(erd, before, entity_table),
                    entity_table.foreign_keys.len(),
                );
                keys.errors.len() == 0 && check_table(erd, before, table).covered == keys.covered
            },
            TableDescriptionView::Relation(relation_table) => check_table(
                erd,
                before,
                table,
            ).covered == before.covered.insert(relation_table.relation),
        },
{
    match table {
        TableDescriptionView::Entity(entity_table) => {
            let named = if before.table_names.contains(entity_table.name) {
                before.errors.push(PhysicalErrorView::DuplicateTableName(entity_table.name))
            } else {
                before.errors
            };
            let start = KeyProgress {
                columns: attribute_names(erd.entity_attributes(entity_table.entity)).to_set(),
                covered: before.covered.insert(entity_table.entity),
                errors: named,
            };
            lemma_foreign_keys_keep_errors(
                erd,
                entity_table,
                start,
                entity_table.foreign_keys.len(),
            );
            if table.resolves(erd) && !before.covered.contains(table.er()) {
                assert(named.len() == 0);
                assert(named == before.errors);
                assert(start == keys_start(erd, before, entity_table));
            }
        },
        TableDescriptionView::Relation(_) => {},
    }
}

/// Where the check of the first `n` tables ends without a fault, each of
/// them is sound, no two of them share a name, and what they lay out is
/// laid out once.
pub proof fn lemma_tables_sound(erd: ERDView, tables: Seq<TableDescriptionView>, n: nat)
    requires
        n <= tables.len(),
        check_tables(erd, tables, n).errors.len() == 0,
    ensures
        check_tables(erd, tables, n).covered == claims(tables, n).to_set(),
        claims(tables, n).no_duplicates(),
        check_tables(erd, tables, n).table_names == table_names(tables).take(n as int).to_set(),
        table_names(tables).take(n as int).no_duplicates(),
        forall|i: int| 0 <= i < n ==> table_sound(erd, #[trigger] tables[i]),
    decreases n,
{
    let names = table_names(tables);
    if n == 0 {
        assert(claims(tables, 0).to_set() =~= Set::<Seq<char>>::empty());
        assert(names.take(0).to_set() =~= Set::<Seq<char>>::empty());
    } else {
        let before = check_tables(erd, tables, (n - 1) as nat);
        let table = tables[n - 1];
        assert(check_tables(erd, tables, n) == check_table(erd, before, table));
        lemma_table_step(erd, before, table);
        lemma_tables_sound(erd, tables, (n - 1) as nat);
        let earlier = claims(tables, (n - 1) as nat);
        assert(names.take(n as int) =~= names.take(n - 1).push(table.name()));
        names.take(n - 1).lemma_push_to_set_commute(table.name());
        lemma_push_no_duplicates(names.take(n - 1), table.name());
        earlier.lemma_push_to_set_commute(table.er());
        lemma_push_no_duplicates(earlier, table.er());
        match table {
            TableDescriptionView::Entity(entity_table) => {
                lemma_foreign_keys_sound(
                    erd,
                    entity_table,
                    keys_start(erd, before, entity_table),
                    earlier.push(entity_table.entity),
                    entity_table.foreign_keys.len(),
                );
                assert(key_relations(entity_table).take(entity_table.foreign_keys.len() as int)
                    =~= key_relations(entity_table));
                assert(claims(tables, n) =~= earlier.push(entity_table.entity) + key_relations(
                    entity_table,
                ));
            },
            TableDescriptionView::Relation(relation_table) => {
                assert(claims(tables, n) =~= earlier.push(relation_table.relation));
            },
        }
    }
}

/// Nothing is reported as forgotten exactly where everything is laid out.
pub proof fn lemma_forgotten_none(idents: Seq<Seq<char>>, covered: Set<Seq<char>>, n: nat)
    requires
        n <= idents.len(),
    ensures
        forgotten(idents, covered, n).len() == 0 <==> forall|j: int|
            0 <= j < n ==> covered.contains(#[trigger] idents[j]),
    decreases n,
{
    if n > 0 {
        lemma_forgotten_none(idents, covered, (n - 1) as nat);
    }
}

/// What some table lays out is what the tables lay out.
pub proof fn lemma_claims_of_a_table(tables: Seq<TableDescriptionView>, n: nat, held: Seq<char>)
    requires
        n <= tables.len(),
    ensures
        claims(tables, n).contains(held) <==> exists|i: int|
            0 <= i < n && (#[trigger] table_claims(tables[i])).contains(held),
    decreases n,
{
    if n > 0 {
        lemma_claims_of_a_table(tables, (n - 1) as nat, held);
        let earlier = claims(tables, (n - 1) as nat);
        let last = table_claims(tables[n - 1]);
        vstd::seq_lib::lemma_seq_concat_contains_all_elements(earlier, last, held);
        if claims(tables, n).contains(held) {
            if last.contains(held) {
                assert(table_claims(tables[n - 1]).contains(held));
            } else {
                let i = choose|i: int|
                    0 <= i < n - 1 && (#[trigger] table_claims(tables[i])).contains(held);
                assert(table_claims(tables[i]).contains(held));
            }
        }
        if exists|i: int| 0 <= i < n && (#[trigger] table_claims(tables[i])).contains(held) {
            let i = choose|i: int| 0 <= i < n && (#[trigger] table_claims(tables[i])).contains(held);
            if i < n - 1 {
                assert(table_claims(tables[i]).contains(held));
            }
        }
    }
}

/// Every layout without a fault lays out each entity and each relation of
/// its schema exactly once, as what a table holds or as what a foreign key
/// folds into a table, and lays out nothing else; its tables are sound and
/// bear different names.
pub proof fn lemma_coverage(erd: ERDView, tables: Seq<TableDescriptionView>)
    requires
        physical_errors(erd, tables).len() == 0,
    ensures
        claims(tables, tables.len()).no_duplicates(),
        forall|held: Seq<char>|
            erd.idents().contains(held) <==> claims(tables, tables.len()).contains(held),
        table_names(tables).no_duplicates(),
        forall|i: int| 0 <= i < tables.len() ==> table_sound(erd, #[trigger] tables[i]),
{
    let checked = check_tables(erd, tables, tables.len());
    let laid_out = claims(tables, tables.len());
    lemma_tables_sound(erd, tables, tables.len());
    lemma_forgotten_none(erd.idents(), checked.covered, erd.idents().len());
    assert(table_names(tables).take(tables.len() as int) =~= table_names(tables));
    assert forall|held: Seq<char>| erd.idents().contains(held) implies laid_out.contains(held) by {
        let j = choose|j: int| 0 <= j < erd.idents().len() && erd.idents()[j] == held;
        assert(checked.covered.contains(erd.idents()[j]));
    }
    assert forall|held: Seq<char>| laid_out.contains(held) implies erd.idents().contains(held) by {
        lemma_claims_of_a_table(tables, tables.len(), held);
        let i = choose|i: int|
            0 <= i < tables.len() && (#[trigger] table_claims(tables[i])).contains(held);
        assert(table_sound(erd, tables[i]));
        lemma_claim_is_known(erd, tables[i], held);
        vstd::seq_lib::lemma_seq_concat_contains_all_elements(
            erd.entity_names(),
            erd.relation_names(),
            held,
        );
    }
}

/// What a sound table lays out is an entity or a relation of the schema:
/// what it holds is of the kind that it is a table of, and what its
/// foreign keys name are relations.
pub proof fn lemma_claim_is_known(erd: ERDView, table: TableDescriptionView, held: Seq<char>)
    requires
        table_sound(erd, table),
        table_claims(table).contains(held),
    ensures
        erd.has_entity(held) || erd.has_relation(held),
        erd.has_entity(held) && !erd.has_relation(held) ==> table
            == TableDescriptionView::Entity(table->Entity_0) && table->Entity_0.entity == held,
{
    match table {
        TableDescriptionView::Entity(entity_table) => {
            let p = choose|p: int| 0 <= p < table_claims(table).len() && table_claims(table)[p] == held;
            if p > 0 {
                let foreign_key = entity_table.foreign_keys[p - 1];
                assert(key_relations(entity_table)[p - 1] == foreign_key.relation);
                assert(foreign_key_sound(erd, entity_table.entity, foreign_key));
                lemma_first_position(erd.relation_names(), held);
            }
        },
        TableDescriptionView::Relation(relation_table) => {
            let p = choose|p: int| 0 <= p < table_claims(table).len() && table_claims(table)[p] == held;
        },
    }
}

/// In a layout without a fault of a well-formed schema, every entity of
/// the schema has a table.
pub proof fn lemma_entity_has_table(
    erd: ERDView,
    tables: Seq<TableDescriptionView>,
    entity: Seq<char>,
)
    requires
        erd.well_formed(),
        physical_errors(erd, tables).len() == 0,
        erd.has_entity(entity),
    ensures
        table_of_entity(tables, entity).is_some(),
{
    lemma_coverage(erd, tables);
    vstd::seq_lib::lemma_seq_concat_contains_all_elements(
        erd.entity_names(),
        erd.relation_names(),
        entity,
    );
    assert(claims(tables, tables.len()).contains(entity));
    lemma_claims_of_a_table(tables, tables.len(), entity);
    let i = choose|i: int|
        0 <= i < tables.len() && (#[trigger] table_claims(tables[i])).contains(entity);
    assert(table_sound(erd, tables[i]));
    lemma_claim_is_known(erd, tables[i], entity);
    if erd.has_relation(entity) {
        let j = choose|j: int|
            0 <= j < erd.relation_names().len() && erd.relation_names()[j] == entity;
        assert(erd.relations[j].name == entity);
        assert(!erd.has_entity(erd.relations[j].name));
    }
    assert(table_entities(tables)[i] == Some(entity));
    lemma_first_position(table_entities(tables), Some(entity));
}

/// A foreign key has as many columns as the entity it refers to has keys.
pub proof fn lemma_key_column_names_len(column: Seq<char>, keys: Seq<Seq<char>>)
    ensures
        key_column_names(column, keys).len() == keys.len(),
{
}

/// In a layout without a fault of a well-formed schema, every entity that
/// a table refers to has a table.
pub proof fn lemma_can_refer(erd: ERDView, tables: Seq<TableDescriptionView>, i: int)
    requires
        erd.well_formed(),
        physical_errors(erd, tables).len() == 0,
        0 <= i < tables.len(),
    ensures
        tables[i].can_refer(erd, tables),
{
    lemma_coverage(erd, tables);
    assert(table_sound(erd, tables[i]));
    match tables[i] {
        TableDescriptionView::Entity(table) => {
            assert forall|k: int| 0 <= k < table.foreign_keys.len() implies match table.referred_entity(
                erd,
                #[trigger] table.foreign_keys[k],
            ) {
                Some(entity) => table_of_entity(tables, entity).is_some(),
                None => false,
            } by {
                let foreign_key = table.foreign_keys[k];
                assert(foreign_key_sound(erd, table.entity, foreign_key));
                erd.lemma_members_known(foreign_key.relation);
                let relation = erd.find_relation(foreign_key.relation).unwrap();
                lemma_first_other_is_member(relation.members, table.entity);
                let member = relation.other_member(table.entity).unwrap();
                let j = choose|j: int| 0 <= j < relation.members.len() && relation.members[j] == member;
                assert(erd.has_entity(relation.members[j].entity));
                lemma_entity_has_table(erd, tables, member.entity);
            }
        },
        TableDescriptionView::Relation(table) => {
            erd.lemma_members_known(table.relation);
            let relation = erd.find_relation(table.relation).unwrap();
            assert forall|j: int|
                0 <= j < members_of(erd, table.relation).len() implies table_of_entity(
                tables,
                #[trigger] members_of(erd, table.relation)[j],
            ).is_some() by {
                assert(erd.has_entity(relation.members[j].entity));
                lemma_entity_has_table(erd, tables, relation.members[j].entity);
            }
        },
    }
}

/// No column that holds a copy of a key is auto-incrementing: a copy of an
/// auto-incrementing key is a plain integer, and a copy of any other key
/// has the type of the key.
pub proof fn lemma_referring_column_type(name: Seq<char>, key: AttributeView)
    requires
        key.datatype.is_some(),
    ensures
        referring_column(name, key).datatype != DataType::AutoIncrement,
        key.datatype == Some(DataType::AutoIncrement) ==> referring_column(name, key).datatype
            == DataType::Integer,
        key.datatype != Some(DataType::AutoIncrement) ==> referring_column(name, key).datatype
            == key.datatype.unwrap(),
{
}

/// Every constraint that a table brings pairs its columns with the
/// columns that they refer to: the two lists are of one length.
pub proof fn lemma_constraints_pair_columns(
    erd: ERDView,
    tables: Seq<TableDescriptionView>,
    table: TableDescriptionView,
    k: int,
)
    requires
        0 <= k < table.constraints(erd, tables).len(),
    ensures
        table.constraints(erd, tables)[k]->ForeignKey_0.column_names.len() == table.constraints(
            erd,
            tables,
        )[k]->ForeignKey_0.other_table_column_names.len(),
{
}

/// The names of columns, in their order.
pub open spec fn column_names(columns: Seq<TableColumnView>) -> Seq<Seq<char>> {
    columns.map_values(|c: TableColumnView| c.name)
}

/// The key columns of the first `n` members bear the names that make up
/// the primary key.
pub proof fn lemma_members_key_columns_names(erd: ERDView, members: Seq<Seq<char>>, n: nat)
    requires
        n <= members.len(),
    ensures
        column_names(members_key_columns(erd, members, n)) == members_key_names(erd, members, n),
    decreases n,
{
    if n == 0 {
        assert(column_names(members_key_columns(erd, members, 0)) =~= members_key_names(
            erd,
            members,
            0,
        ));
    } else {
        lemma_members_key_columns_names(erd, members, (n - 1) as nat);
        let names = member_key_names(erd, members, n - 1);
        let keys = erd.entity_keys(members[n - 1]);
        assert(column_names(referring_columns(names, keys)) =~= names);
        assert(column_names(members_key_columns(erd, members, n)) =~= column_names(
            members_key_columns(erd, members, (n - 1) as nat),
        ) + column_names(referring_columns(names, keys)));
    }
}

/// The primary key of every table is made of columns of the table.
pub proof fn lemma_primary_key_in_columns(erd: ERDView, table: TableDescriptionView, p: int)
    requires
        0 <= p < table.to_table(erd).primary_key_parts.len(),
    ensures
        column_names(table.to_table(erd).columns).contains(
            table.to_table(erd).primary_key_parts[p],
        ),
{
    let made = table.to_table(erd);
    let names = column_names(made.columns);
    match table {
        TableDescriptionView::Entity(entity_table) => {
            let attributes = erd.entity_attributes(entity_table.entity);
            let keys = erd.entity_keys(entity_table.entity);
            assert(keys.contains(keys[p]));
            attributes.lemma_filter_contains_rev(
                |a: AttributeView| a.kind == AttributeType::Key,
                keys[p],
            );
            let i = choose|i: int| 0 <= i < attributes.len() && attributes[i] == keys[p];
            assert(made.columns[i] == own_columns(attributes)[i]);
            assert(names[i] == made.primary_key_parts[p]);
        },
        TableDescriptionView::Relation(relation_table) => {
            let members = members_of(erd, relation_table.relation);
            let copied = copied_columns(erd.relation_attributes(relation_table.relation));
            lemma_members_key_columns_names(erd, members, members.len());
            let keyed = members_key_columns(erd, members, members.len());
            assert(column_names(keyed)[p] == made.primary_key_parts[p]);
            assert(made.columns[copied.len() + p] == keyed[p]);
            assert(names[copied.len() + p] == made.primary_key_parts[p]);
        },
    }
}

/// In the table of a relation of an entity with itself, the copies of a
/// key for the two sides bear different names: the first is the name of
/// the entity, an underscore and the name of the key, and the second is
/// the same with a `2` after it.
pub proof fn lemma_self_relation_columns_differ(members: Seq<Seq<char>>, key: Seq<char>)
    requires
        members.len() == 2,
        members[0] == members[1],
    ensures
        member_key_name(members, 0, key) == members[0] + "_"@ + key,
        member_key_name(members, 1, key) == members[0] + "_"@ + key + "2"@,
        member_key_name(members, 0, key) != member_key_name(members, 1, key),
{
    reveal_strlit("2");
    assert(members.take(0) =~= Seq::<Seq<char>>::empty());
    assert(members.take(1)[0] == members[1]);
    assert(member_key_name(members, 0, key) =~= members[0] + "_"@ + key);
    assert(member_key_name(members, 1, key).len() == member_key_name(members, 0, key).len() + 1);
}

} // verus!

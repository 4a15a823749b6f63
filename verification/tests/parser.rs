use erd_script::ast::{Expr, Ident};
use erd_script::parser::{
    consume_expression, consume_expressions, consume_records, read_entity, read_entity_table,
    read_relation, ConsumeError, ParserExpr, Rule, SyntaxNode,
};

fn word(text: &str) -> SyntaxNode {
    SyntaxNode { rule: Rule::Other, text: text.to_string(), children: vec![] }
}

fn node(rule: Rule, text: &str, children: Vec<SyntaxNode>) -> SyntaxNode {
    SyntaxNode { rule, text: text.to_string(), children }
}

fn words(rule: Rule, texts: &[&str]) -> SyntaxNode {
    node(rule, &texts.join(" "), texts.iter().map(|t| word(t)).collect())
}

fn expression(declared: SyntaxNode) -> SyntaxNode {
    let text = declared.text.clone();
    node(Rule::Expression, &text, vec![declared])
}

fn s(text: &str) -> String {
    text.to_string()
}

#[test]
fn an_entity_is_read_from_its_node() {
    let entity = node(
        Rule::Entity,
        "entity Person id nr integer attribute name",
        vec![
            word(" Person\n"),
            words(Rule::Attribute, &["id", "nr", "integer"]),
            words(Rule::Attribute, &["attribute", "name"]),
            words(Rule::Attribute, &["attribute", "born", "date", "more"]),
        ],
    );
    assert_eq!(
        consume_expression(&expression(entity)),
        Some(ParserExpr::Entity(
            s("Person"),
            vec![
                (s("id"), s("nr"), Some(s("integer"))),
                (s("attribute"), s("name"), None),
                (s("attribute"), s("born"), Some(s("date"))),
            ]
        ))
    );
    assert_eq!(
        consume_expression(&expression(node(Rule::Entity, "", vec![word("E")]))),
        Some(ParserExpr::Entity(s("E"), vec![]))
    );
}

#[test]
fn a_relation_is_read_from_its_node() {
    let relation = node(
        Rule::Relation,
        "",
        vec![
            word("\tKnows "),
            node(Rule::RelationName, "knows of", vec![]),
            words(Rule::Attribute, &["attribute", "since", "date"]),
            words(Rule::Member, &["one", "optional", "Person"]),
            words(Rule::Attribute, &["id", "nr"]),
            words(Rule::Member, &["multiple", "required", "Person"]),
        ],
    );
    assert_eq!(
        consume_expression(&expression(relation)),
        Some(ParserExpr::Relation(
            s("Knows"),
            Some(s("knows of")),
            vec![(s("one"), s("optional"), s("Person")), (s("multiple"), s("required"), s("Person"))],
            vec![(s("attribute"), s("since"), Some(s("date"))), (s("id"), s("nr"), None)]
        ))
    );
    let plain = node(
        Rule::Relation,
        "",
        vec![word("R"), words(Rule::Member, &["one", "optional", "E"])],
    );
    assert_eq!(
        consume_expression(&expression(plain)),
        Some(ParserExpr::Relation(s("R"), None, vec![(s("one"), s("optional"), s("E"))], vec![]))
    );
}

#[test]
fn tables_are_read_from_their_nodes() {
    let entity_table = node(
        Rule::EntityTable,
        "",
        vec![
            word("books"),
            word("Book"),
            words(Rule::Foreign, &["author_id", "Wrote"]),
            words(Rule::Foreign, &["shelf", "Stands", "more"]),
        ],
    );
    assert_eq!(
        consume_expression(&expression(entity_table)),
        Some(ParserExpr::EntityTable(
            s("books"),
            s("Book"),
            vec![(s("author_id"), s("Wrote")), (s("shelf"), s("Stands"))]
        ))
    );
    let relation_table = node(Rule::RelationTable, "", vec![word(" wrote "), word("Wrote")]);
    assert_eq!(
        consume_expression(&expression(relation_table)),
        Some(ParserExpr::RelationTable(s(" wrote "), s("Wrote")))
    );
}

#[test]
fn a_tree_that_lacks_a_node_gives_no_record() {
    assert_eq!(consume_expression(&node(Rule::Expression, "", vec![])), None);
    assert_eq!(consume_expression(&expression(word("x"))), None);
    assert_eq!(consume_expression(&expression(node(Rule::Entity, "", vec![]))), None);
    assert_eq!(consume_expression(&expression(node(Rule::Relation, "", vec![]))), None);
    assert_eq!(
        consume_expression(&expression(node(Rule::EntityTable, "", vec![word("t")]))),
        None
    );
    assert_eq!(
        consume_expression(&expression(node(Rule::RelationTable, "", vec![word("t")]))),
        None
    );
    assert_eq!(
        consume_expression(&expression(node(
            Rule::Entity,
            "",
            vec![word("E"), words(Rule::Attribute, &["id"])]
        ))),
        None
    );
    assert_eq!(
        consume_expression(&expression(node(
            Rule::Relation,
            "",
            vec![word("R"), words(Rule::Member, &["one", "optional"])]
        ))),
        None
    );
    assert_eq!(
        consume_expression(&expression(node(
            Rule::EntityTable,
            "",
            vec![word("t"), word("E"), words(Rule::Foreign, &["c"])]
        ))),
        None
    );
}

#[test]
fn a_node_of_a_kind_without_a_place_gives_no_record() {
    assert_eq!(
        consume_expression(&expression(node(
            Rule::Relation,
            "",
            vec![word("R"), words(Rule::Foreign, &["c", "R"])]
        ))),
        None
    );
    assert_eq!(
        consume_expression(&expression(node(
            Rule::Relation,
            "",
            vec![
                word("R"),
                words(Rule::Member, &["one", "optional", "E"]),
                node(Rule::RelationName, "late", vec![]),
            ]
        ))),
        None
    );
    assert_eq!(
        consume_expression(&expression(node(
            Rule::EntityTable,
            "",
            vec![word("t"), word("E"), words(Rule::Attribute, &["id", "x"])]
        ))),
        None
    );
}

#[test]
fn the_parts_of_a_declaration_are_read_under_a_given_name() {
    let parts = vec![word("ignored"), words(Rule::Attribute, &["id", "nr"])];
    assert_eq!(
        read_entity(s("Named"), &parts),
        Some(ParserExpr::Entity(s("Named"), vec![(s("id"), s("nr"), None)]))
    );
    assert_eq!(
        read_relation(s("Named"), &parts),
        Some(ParserExpr::Relation(s("Named"), None, vec![], vec![(s("id"), s("nr"), None)]))
    );
    let table = vec![word("t"), word("E")];
    assert_eq!(read_entity_table(&table), Some(ParserExpr::EntityTable(s("t"), s("E"), vec![])));
    assert_eq!(read_entity(s("Named"), &vec![]), None);
    assert_eq!(read_relation(s("Named"), &vec![]), None);
    assert_eq!(read_entity_table(&vec![word("t")]), None);
}

#[test]
fn the_declarations_of_a_document_are_read_in_their_order() {
    let nodes = vec![
        expression(node(Rule::Entity, "", vec![word("A")])),
        word(""),
        expression(node(Rule::RelationTable, "", vec![word("t"), word("R")])),
        node(Rule::Entity, "", vec![]),
    ];
    assert_eq!(
        consume_records(&nodes),
        Ok(vec![ParserExpr::Entity(s("A"), vec![]), ParserExpr::RelationTable(s("t"), s("R"))])
    );
    assert_eq!(consume_records(&vec![]), Ok(vec![]));
    let broken = vec![
        expression(node(Rule::Entity, "", vec![word("A")])),
        expression(node(Rule::Entity, "", vec![])),
        expression(node(Rule::Entity, "", vec![word("B")])),
    ];
    assert_eq!(consume_records(&broken), Err(ConsumeError::UnknownParseError));
}

#[test]
fn the_declarations_of_a_document_are_made_from_its_tree() {
    let nodes = vec![
        expression(node(Rule::RelationTable, "", vec![word("t"), word("R")])),
        word(""),
    ];
    assert_eq!(
        consume_expressions(&nodes),
        Ok(vec![Expr::RelationTable(Ident(s("t")), Ident(s("R")))])
    );
    let unknown_word = vec![expression(node(
        Rule::Entity,
        "",
        vec![word("E"), words(Rule::Attribute, &["key", "nr"])],
    ))];
    assert_eq!(consume_expressions(&unknown_word), Err(ConsumeError::UnknownParseError));
    let broken = vec![expression(node(Rule::Entity, "", vec![]))];
    assert_eq!(consume_expressions(&broken), Err(ConsumeError::UnknownParseError));
}

use erd_script::ast::{
    Attribute, AttributeType, DataType, Expr, Ident, RelationCardinality, RelationMember,
    RelationOptionality,
};
use erd_script::dot::{
    AList, AListItem, AttributeList, AttributeStatement, AttributeStatementType, EdgeRHS,
    EdgeStatement, EdgeType, Graph, GraphType, NodeStatement, Statement,
};
use erd_script::erd::{ToDot, ERD};
use erd_script::parser::{read_declarations, ConsumeError, ParserExpr};

fn ident(name: &str) -> Ident {
    Ident(name.to_string())
}

fn item(key: &str, value: &str) -> AListItem {
    AListItem { key: key.to_string(), value: value.to_string() }
}

fn list(items: Vec<AListItem>) -> AttributeList {
    AttributeList { content: AList(items), tail: Box::new(None) }
}

#[test]
fn the_parts_of_a_description_have_their_texts() {
    assert_eq!(GraphType::Normal.to_string(), "graph");
    assert_eq!(GraphType::Directional.to_string(), "digraph");
    assert_eq!(EdgeType::Normal.to_string(), "--");
    assert_eq!(EdgeType::Directional.to_string(), "->");
    assert_eq!(AttributeStatementType::Graph.to_string(), "graph");
    assert_eq!(AttributeStatementType::Node.to_string(), "node");
    assert_eq!(AttributeStatementType::Edge.to_string(), "edge");
    assert_eq!(item("shape", "box").to_string(), "shape=box");
    assert_eq!(AListItem::new("len", "1.00".to_string()), item("len", "1.00"));
    assert_eq!(AList(vec![]).to_string(), "");
    assert_eq!(AList(vec![item("a", "1")]).to_string(), "a=1");
    assert_eq!(AList(vec![item("a", "1"), item("b", "2"), item("c", "3")]).to_string(), "a=1; b=2; c=3");
    assert_eq!(list(vec![]).to_string(), "[]");
    assert_eq!(AttributeList::single(vec![item("a", "1")]), list(vec![item("a", "1")]));
    let lists = AttributeList {
        content: AList(vec![item("a", "1")]),
        tail: Box::new(Some(AttributeList {
            content: AList(vec![item("b", "2"), item("c", "3")]),
            tail: Box::new(Some(list(vec![]))),
        })),
    };
    assert_eq!(lists.to_string(), "[a=1] [b=2; c=3] []");
    assert_eq!(NodeStatement { node: "n".to_string(), attributes: None }.to_string(), "n");
    assert_eq!(
        NodeStatement { node: "n".to_string(), attributes: Some(list(vec![item("a", "1")])) }
            .to_string(),
        "n [a=1]"
    );
    let chain = EdgeRHS {
        kind: EdgeType::Directional,
        id: "b".to_string(),
        right: Box::new(Some(EdgeRHS::to_node("c".to_string()))),
    };
    assert_eq!(chain.to_string(), "-> b -- c");
    assert_eq!(
        EdgeStatement {
            left: "a".to_string(),
            right: EdgeRHS::to_node("b".to_string()),
            attributes: None
        }
        .to_string(),
        "a -- b"
    );
    assert_eq!(
        EdgeStatement { left: "a".to_string(), right: chain, attributes: Some(list(vec![item("len", "2")])) }
            .to_string(),
        "a -> b -- c [len=2]"
    );
    assert_eq!(
        AttributeStatement { kind: AttributeStatementType::Node, attributes: list(vec![item("a", "1")]) }
            .to_string(),
        "node [a=1]"
    );
    assert_eq!(Statement::ID("layout".to_string(), "neato".to_string()).to_string(), "layout=neato");
    assert_eq!(Statement::Subgraph.to_string(), "");
}

#[test]
fn a_graph_has_its_text() {
    let empty = Graph { strict: false, kind: GraphType::Normal, id: None, statements: vec![] };
    assert_eq!(empty.to_string(), "graph {\n}");
    let graph = Graph {
        strict: true,
        kind: GraphType::Directional,
        id: Some("g".to_string()),
        statements: vec![
            Statement::ID("a".to_string(), "b".to_string()),
            Statement::Subgraph,
            Statement::Node(NodeStatement { node: "n".to_string(), attributes: None }),
        ],
    };
    assert_eq!(graph.to_string(), "strict digraph g {\na=b\n\nn\n}");
}

fn schema() -> ERD {
    ERD::try_from(vec![
        Expr::Entity(
            ident("Person"),
            vec![
                Attribute {
                    ident: ident("id"),
                    kind: AttributeType::Key,
                    datatype: Some(DataType::Integer),
                },
                Attribute { ident: ident("name"), kind: AttributeType::Normal, datatype: None },
            ],
        ),
        Expr::Relation(
            ident("Knows"),
            Some("knows of".to_string()),
            vec![
                RelationMember {
                    cardinality: RelationCardinality::Multiple,
                    optionality: RelationOptionality::Optional,
                    entity: ident("Person"),
                },
                RelationMember {
                    cardinality: RelationCardinality::One,
                    optionality: RelationOptionality::Required,
                    entity: ident("Person"),
                },
                RelationMember {
                    cardinality: RelationCardinality::Multiple,
                    optionality: RelationOptionality::Required,
                    entity: ident("Person"),
                },
                RelationMember {
                    cardinality: RelationCardinality::Exact(3),
                    optionality: RelationOptionality::Optional,
                    entity: ident("Person"),
                },
                RelationMember {
                    cardinality: RelationCardinality::Multiple,
                    optionality: RelationOptionality::Optional,
                    entity: ident("Person"),
                },
            ],
            vec![Attribute { ident: ident("since"), kind: AttributeType::Normal, datatype: None }],
        ),
    ])
    .unwrap()
}

#[test]
fn a_schema_is_drawn() {
    let graph = schema().to_dot();
    assert!(!graph.strict);
    assert_eq!(graph.kind, GraphType::Normal);
    assert_eq!(graph.id, None);
    assert_eq!(
        graph.to_string(),
        "graph {\n\
         layout=neato\n\
         forcelabels=true\n\
         overlap=scale\n\
         graph [pad=2; nodesep=1; ranksep=2]\n\
         Person [shape=box]\n\
         Person_id [shape=ellipse; label=<<U>id</U>>]\n\
         Person_name [shape=ellipse; label=name]\n\
         Person -- Person_id [len=1.00]\n\
         Person -- Person_name [len=1.00]\n\
         Knows [shape=diamond; label=\"knows of\"]\n\
         Knows_since [shape=ellipse; label=since]\n\
         Knows -- Knows_since [len=1.00]\n\
         Knows -- Person [color=black; label=<<font color=\"blue\">n</font>>; len=1.00]\n\
         Knows -- Person [color=\"black:invis:invis:black\"; label=<<font color=\"blue\">1</font>>; len=1.00]\n\
         Knows -- Person [color=\"black:invis:invis:black\"; label=<<font color=\"blue\">m</font>>; len=1.00]\n\
         Knows -- Person [color=black; label=<<font color=\"blue\">3</font>>; len=1.00]\n\
         Knows -- Person [color=black; label=<<font color=\"blue\">o</font>>; len=1.00]\n\
         }"
    );
}

#[test]
fn the_parts_of_a_schema_are_drawn() {
    let erd = schema();
    assert_eq!(erd.to_dot_statements(), erd.to_dot().statements);
    let knows = erd.get_relation(ident("Knows")).unwrap();
    let statements = knows.to_dot_statements();
    assert_eq!(statements.len(), 8);
    assert_eq!(statements[0].to_string(), "Knows [shape=diamond; label=\"knows of\"]");
    let both = vec![knows, erd.get_relation(ident("Knows")).unwrap()].to_dot_statements();
    assert_eq!(both.len(), 16);
    assert_eq!(both[8], statements[0]);
    let none: Vec<erd_script::erd::Relation> = vec![];
    assert_eq!(none.to_dot_statements(), vec![]);
    let id = Attribute { ident: ident("id"), kind: AttributeType::Key, datatype: None };
    assert_eq!(
        id.to_dot_statements(ident("Car")),
        vec![Statement::Node(NodeStatement {
            node: "Car_id".to_string(),
            attributes: Some(list(vec![item("shape", "ellipse"), item("label", "<<U>id</U>>")])),
        })]
    );
}

#[test]
fn records_become_declarations() {
    let records = vec![
        ParserExpr::Entity(
            "E".to_string(),
            vec![("id".to_string(), "k".to_string(), Some("date".to_string()))],
        ),
        ParserExpr::Relation(
            "R".to_string(),
            Some("r".to_string()),
            vec![("exactly2)".to_string(), "optional".to_string(), "E".to_string())],
            vec![("attribute".to_string(), "a".to_string(), None)],
        ),
        ParserExpr::EntityTable(
            "t".to_string(),
            "E".to_string(),
            vec![("c".to_string(), "R".to_string())],
        ),
        ParserExpr::RelationTable("u".to_string(), "R".to_string()),
    ];
    assert_eq!(
        read_declarations(&records),
        Ok(vec![
            Expr::Entity(
                ident("E"),
                vec![Attribute {
                    ident: ident("k"),
                    kind: AttributeType::Key,
                    datatype: Some(DataType::Date),
                }]
            ),
            Expr::Relation(
                ident("R"),
                Some("r".to_string()),
                vec![RelationMember {
                    cardinality: RelationCardinality::Exact(2),
                    optionality: RelationOptionality::Optional,
                    entity: ident("E"),
                }],
                vec![Attribute { ident: ident("a"), kind: AttributeType::Normal, datatype: None }]
            ),
            Expr::EntityTable(
                ident("t"),
                ident("E"),
                vec![erd_script::ast::ForeignKey { attribute_name: ident("c"), relation: ident("R") }]
            ),
            Expr::RelationTable(ident("u"), ident("R")),
        ])
    );
    assert_eq!(records[3].to_expr(), Some(Expr::RelationTable(ident("u"), ident("R"))));
    let unknown = vec![
        ParserExpr::RelationTable("u".to_string(), "R".to_string()),
        ParserExpr::Entity(
            "E".to_string(),
            vec![("id".to_string(), "k".to_string(), Some("datum".to_string()))],
        ),
    ];
    assert_eq!(read_declarations(&unknown), Err(ConsumeError::UnknownParseError));
    assert_eq!(unknown[1].to_expr(), None);
}

#[test]
fn the_failure_of_a_document_is_told_in_sentences() {
    assert_eq!(
        ConsumeError::UnknownParseError.to_string(),
        "Unknown parse error, please report."
    );
    assert_eq!(
        ConsumeError::ERDParseError(vec!["line 1".to_string(), "line 2".to_string()]).to_string(),
        "Error while parsing ERD:\nline 1\nline 2"
    );
    assert_eq!(ConsumeError::ERDParseError(vec![]).to_string(), "Error while parsing ERD:\n");
}

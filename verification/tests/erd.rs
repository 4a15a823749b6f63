use erd_script::ast::{
    Attribute, AttributeType, DataType, Expr, Ident, RelationCardinality, RelationMember,
    RelationOptionality,
};
use erd_script::erd::{ERDError, ERDFromScriptError, ERD};
use erd_script::parser::{ConsumeError, ParserExpr};

fn ident(name: &str) -> Ident {
    Ident(name.to_string())
}

fn attribute(name: &str, kind: AttributeType, datatype: Option<DataType>) -> Attribute {
    Attribute { ident: ident(name), kind, datatype }
}

fn member(
    cardinality: RelationCardinality,
    optionality: RelationOptionality,
    entity: &str,
) -> RelationMember {
    RelationMember { cardinality, optionality, entity: ident(entity) }
}

fn library() -> Vec<Expr> {
    vec![
        Expr::Entity(
            ident("Author"),
            vec![
                attribute("id", AttributeType::Key, Some(DataType::AutoIncrement)),
                attribute("name", AttributeType::Normal, Some(DataType::Varchar(50))),
            ],
        ),
        Expr::Entity(
            ident("Book"),
            vec![
                attribute("id", AttributeType::Key, Some(DataType::AutoIncrement)),
                attribute("title", AttributeType::Normal, Some(DataType::Varchar(100))),
            ],
        ),
        Expr::Relation(
            ident("Wrote"),
            Some("wrote".to_string()),
            vec![
                member(RelationCardinality::One, RelationOptionality::Required, "Author"),
                member(RelationCardinality::Multiple, RelationOptionality::Required, "Book"),
            ],
            vec![attribute("year", AttributeType::Normal, Some(DataType::Integer))],
        ),
    ]
}

#[test]
fn duplicate_identifier_and_dangling_reference_are_both_reported() {
    let declarations = vec![
        Expr::Entity(
            ident("Person"),
            vec![attribute("id", AttributeType::Key, Some(DataType::Integer))],
        ),
        Expr::Entity(ident("Person"), vec![]),
        Expr::Relation(
            ident("Owns"),
            None,
            vec![member(RelationCardinality::One, RelationOptionality::Required, "Car")],
            vec![],
        ),
    ];
    let errors = ERD::try_from(declarations).unwrap_err();
    assert_eq!(
        errors,
        vec![
            ERDError::DuplicateIdent(ident("Person")),
            ERDError::UnknownEntityInRelation(ident("Car"), ident("Owns")),
        ]
    );
}

#[test]
fn validation_twice_gives_the_same_errors() {
    let declarations = || {
        vec![
            Expr::Entity(
                ident("A"),
                vec![
                    attribute("x", AttributeType::Key, None),
                    attribute("x", AttributeType::Normal, Some(DataType::Date)),
                ],
            ),
            Expr::Relation(ident("A"), None, vec![], vec![]),
        ]
    };
    let first = ERD::try_from(declarations()).unwrap_err();
    let second = ERD::try_from(declarations()).unwrap_err();
    assert_eq!(first, second);
    assert_eq!(
        first,
        vec![
            ERDError::DuplicateAttributeInEntity(ident("x"), ident("A")),
            ERDError::DuplicateIdent(ident("A")),
        ]
    );
}

#[test]
fn every_kind_of_schema_fault_is_found_in_declaration_order() {
    let declarations = vec![
        Expr::Relation(
            ident("R"),
            None,
            vec![
                member(RelationCardinality::One, RelationOptionality::Optional, "E"),
                member(RelationCardinality::One, RelationOptionality::Optional, "Missing"),
            ],
            vec![
                attribute("since", AttributeType::Normal, None),
                attribute("since", AttributeType::Normal, None),
            ],
        ),
        Expr::Entity(
            ident("E"),
            vec![
                attribute("id", AttributeType::Key, None),
                attribute("id", AttributeType::Key, None),
                attribute("id", AttributeType::Normal, None),
            ],
        ),
        Expr::Relation(ident("R"), None, vec![], vec![]),
        Expr::Relation(ident("E"), None, vec![], vec![]),
        Expr::Entity(ident("E"), vec![]),
    ];
    let errors = ERD::try_from(declarations).unwrap_err();
    assert_eq!(
        errors,
        vec![
            ERDError::DuplicateAttributeInEntity(ident("id"), ident("E")),
            ERDError::DuplicateAttributeInEntity(ident("id"), ident("E")),
            ERDError::DuplicateIdent(ident("E")),
            ERDError::UnknownEntityInRelation(ident("Missing"), ident("R")),
            ERDError::DuplicateAttributeInRelation(ident("since"), ident("R")),
            ERDError::DuplicateIdent(ident("R")),
            ERDError::DuplicateIdent(ident("E")),
        ]
    );
}

#[test]
fn attributes_of_different_kinds_and_one_name_are_duplicates() {
    let declarations = vec![Expr::Entity(
        ident("E"),
        vec![
            attribute("a", AttributeType::Key, Some(DataType::Integer)),
            attribute("a", AttributeType::Normal, Some(DataType::Float)),
        ],
    )];
    assert_eq!(
        ERD::try_from(declarations).unwrap_err(),
        vec![ERDError::DuplicateAttributeInEntity(ident("a"), ident("E"))]
    );
}

#[test]
fn a_valid_schema_answers_questions() {
    let erd = ERD::try_from(library()).unwrap();
    assert!(erd.has_entity(ident("Author")));
    assert!(!erd.has_entity(ident("Wrote")));
    assert!(erd.has_relation(ident("Wrote")));
    assert!(!erd.has_relation(ident("Book")));
    assert!(erd.has_entity_or_relation(ident("Book")));
    assert!(erd.has_entity_or_relation(ident("Wrote")));
    assert!(!erd.has_entity_or_relation(ident("Nothing")));
    assert_eq!(erd.get_idents(), vec![ident("Author"), ident("Book"), ident("Wrote")]);
    assert_eq!(
        erd.get_attributes(ident("Book")),
        vec![
            attribute("id", AttributeType::Key, Some(DataType::AutoIncrement)),
            attribute("title", AttributeType::Normal, Some(DataType::Varchar(100))),
        ]
    );
    assert_eq!(
        erd.get_attributes(ident("Wrote")),
        vec![attribute("year", AttributeType::Normal, Some(DataType::Integer))]
    );
    assert_eq!(erd.get_attributes(ident("Nothing")), vec![]);
    assert_eq!(erd.get_entity_attributes(ident("Wrote")), vec![]);
    assert_eq!(
        erd.get_entity_ids(ident("Author")),
        vec![attribute("id", AttributeType::Key, Some(DataType::AutoIncrement))]
    );
    assert!(erd.get_relation(ident("Author")).is_none());
    let wrote = erd.get_relation(ident("Wrote")).unwrap();
    assert_eq!(wrote.name(), ident("Wrote"));
    assert_eq!(wrote.degree(), 2);
    assert_eq!(wrote.label(), "wrote");
    assert_eq!(wrote.get_members(), vec![ident("Author"), ident("Book")]);
    assert_eq!(wrote.find_other_member(ident("Book")), Some(ident("Author")));
    assert_eq!(wrote.find_other_member(ident("Author")), Some(ident("Book")));
}

#[test]
fn a_relation_folds_into_the_table_of_the_many_side_only() {
    let erd = ERD::try_from(library()).unwrap();
    let wrote = erd.get_relation(ident("Wrote")).unwrap();
    assert!(wrote.can_work_with_foreign_key(ident("Book")));
    assert!(!wrote.can_work_with_foreign_key(ident("Author")));
}

#[test]
fn a_relation_of_three_members_folds_into_no_table() {
    let declarations = vec![
        Expr::Entity(ident("A"), vec![]),
        Expr::Entity(ident("B"), vec![]),
        Expr::Entity(ident("C"), vec![]),
        Expr::Relation(
            ident("R"),
            None,
            vec![
                member(RelationCardinality::One, RelationOptionality::Required, "A"),
                member(RelationCardinality::One, RelationOptionality::Required, "B"),
                member(RelationCardinality::One, RelationOptionality::Required, "C"),
            ],
            vec![],
        ),
    ];
    let erd = ERD::try_from(declarations).unwrap();
    let relation = erd.get_relation(ident("R")).unwrap();
    assert_eq!(relation.degree(), 3);
    assert!(!relation.can_work_with_foreign_key(ident("A")));
    assert!(!relation.can_work_with_foreign_key(ident("B")));
    assert!(!relation.can_work_with_foreign_key(ident("C")));
}

#[test]
fn a_relation_of_an_entity_with_itself_folds_into_no_table() {
    let declarations = vec![
        Expr::Entity(ident("Person"), vec![]),
        Expr::Relation(
            ident("Knows"),
            None,
            vec![
                member(RelationCardinality::One, RelationOptionality::Required, "Person"),
                member(RelationCardinality::One, RelationOptionality::Required, "Person"),
            ],
            vec![],
        ),
    ];
    let erd = ERD::try_from(declarations).unwrap();
    let knows = erd.get_relation(ident("Knows")).unwrap();
    assert!(!knows.can_work_with_foreign_key(ident("Person")));
    assert_eq!(knows.find_other_member(ident("Person")), None);
    assert_eq!(knows.label(), "Knows");
}

#[test]
fn schema_errors_are_told_in_sentences() {
    assert_eq!(
        ERDError::DuplicateIdent(ident("A")).to_string(),
        "Name A is used multiple times."
    );
    assert_eq!(
        ERDError::DuplicateAttributeInEntity(ident("x"), ident("A")).to_string(),
        "Multiple attributes named x in entity A."
    );
    assert_eq!(
        ERDError::DuplicateAttributeInRelation(ident("x"), ident("R")).to_string(),
        "Multiple attributes named x in relation R."
    );
    assert_eq!(
        ERDError::UnknownEntityInRelation(ident("E"), ident("R")).to_string(),
        "Unknown entity E in relation R."
    );
}

#[test]
fn a_schema_is_made_from_the_records_of_a_document() {
    let records = vec![
        ParserExpr::Entity(
            "Person".to_string(),
            vec![
                ("id".to_string(), "nr".to_string(), Some("autoincrement".to_string())),
                ("attribute".to_string(), "name".to_string(), Some("varchar(40)".to_string())),
                ("attribute".to_string(), "nick".to_string(), None),
            ],
        ),
        ParserExpr::Relation(
            "Knows".to_string(),
            None,
            vec![
                ("one".to_string(), "optional".to_string(), "Person".to_string()),
                ("exactly3)".to_string(), "required".to_string(), "Person".to_string()),
            ],
            vec![],
        ),
    ];
    let erd = ERD::from_script(&records).unwrap();
    assert_eq!(
        erd.get_attributes(ident("Person")),
        vec![
            attribute("nr", AttributeType::Key, Some(DataType::AutoIncrement)),
            attribute("name", AttributeType::Normal, Some(DataType::Varchar(40))),
            attribute("nick", AttributeType::Normal, None),
        ]
    );
    assert_eq!(
        erd.get_relation(ident("Knows")).unwrap().members(),
        vec![
            member(RelationCardinality::One, RelationOptionality::Optional, "Person"),
            member(RelationCardinality::Exact(3), RelationOptionality::Required, "Person"),
        ]
    );
}

#[test]
fn a_record_with_an_unknown_word_makes_no_schema() {
    let records = vec![ParserExpr::Entity(
        "Person".to_string(),
        vec![("key".to_string(), "nr".to_string(), None)],
    )];
    assert_eq!(
        ERD::from_script(&records),
        Err(ERDFromScriptError::ParsingError(ConsumeError::UnknownParseError))
    );
}

#[test]
fn the_faults_of_a_document_are_those_of_its_declarations() {
    let records = vec![
        ParserExpr::Entity("A".to_string(), vec![]),
        ParserExpr::Entity("A".to_string(), vec![]),
    ];
    assert_eq!(
        ERD::from_script(&records),
        Err(ERDFromScriptError::ERDError(vec![ERDError::DuplicateIdent(ident("A"))]))
    );
}

use erd_script::ast::{
    Attribute, AttributeType, DataType, Expr, ForeignKey, Ident, RelationCardinality,
    RelationMember, RelationOptionality,
};
use erd_script::erd::ERDError;
use erd_script::parser::{ConsumeError, ParserExpr};
use erd_script::physical::{
    Constraint, PhysicalDescription, PhysicalERDError, PhysicalError, PhysicalFromScriptError,
    TableDescription,
};
use erd_script::sql::SQL;

fn ident(name: &str) -> Ident {
    Ident(name.to_string())
}

fn key(name: &str, datatype: DataType) -> Attribute {
    Attribute { ident: ident(name), kind: AttributeType::Key, datatype: Some(datatype) }
}

fn plain(name: &str, datatype: DataType) -> Attribute {
    Attribute { ident: ident(name), kind: AttributeType::Normal, datatype: Some(datatype) }
}

fn member(cardinality: RelationCardinality, entity: &str) -> RelationMember {
    RelationMember {
        cardinality,
        optionality: RelationOptionality::Required,
        entity: ident(entity),
    }
}

fn foreign_key(column: &str, relation: &str) -> ForeignKey {
    ForeignKey { attribute_name: ident(column), relation: ident(relation) }
}

fn entity_table(name: &str, entity: &str, foreign_keys: Vec<ForeignKey>) -> Expr {
    Expr::EntityTable(ident(name), ident(entity), foreign_keys)
}

fn relation_table(name: &str, relation: &str) -> Expr {
    Expr::RelationTable(ident(name), ident(relation))
}

fn library() -> Vec<Expr> {
    vec![
        Expr::Entity(
            ident("Author"),
            vec![key("id", DataType::AutoIncrement), plain("name", DataType::Varchar(50))],
        ),
        Expr::Entity(
            ident("Book"),
            vec![key("id", DataType::AutoIncrement), plain("title", DataType::Varchar(100))],
        ),
        Expr::Relation(
            ident("Wrote"),
            None,
            vec![
                member(RelationCardinality::One, "Author"),
                member(RelationCardinality::Multiple, "Book"),
            ],
            vec![],
        ),
    ]
}

fn with(mut declarations: Vec<Expr>, tables: Vec<Expr>) -> Vec<Expr> {
    declarations.extend(tables);
    declarations
}

fn physical_errors(declarations: Vec<Expr>) -> Vec<PhysicalError> {
    match PhysicalDescription::try_from(declarations) {
        Err(PhysicalERDError::Physical(errors)) => errors,
        other => panic!("no faults of the layout: {:?}", other),
    }
}

fn names(idents: &Vec<Ident>) -> Vec<String> {
    idents.iter().map(|i| i.to_string()).collect()
}

#[test]
fn the_library_is_laid_out_with_the_relation_in_the_table_of_the_books() {
    let description = PhysicalDescription::try_from(with(
        library(),
        vec![
            entity_table("books", "Book", vec![foreign_key("author_id", "Wrote")]),
            entity_table("authors", "Author", vec![]),
        ],
    ))
    .unwrap();
    assert!(description.can_materialize());
    let physical = description.to_physical();
    assert_eq!(physical.tables().len(), 2);
    let books = &physical.tables()[0];
    assert_eq!(books.name().to_string(), "books");
    let columns: Vec<(String, DataType)> =
        books.columns().iter().map(|c| (c.name().to_string(), c.datatype())).collect();
    assert_eq!(
        columns,
        vec![
            ("id".to_string(), DataType::AutoIncrement),
            ("title".to_string(), DataType::Varchar(100)),
            ("author_id".to_string(), DataType::Integer),
        ]
    );
    assert_eq!(names(books.primary_key_parts()), vec!["id"]);
    let authors = &physical.tables()[1];
    assert_eq!(authors.name().to_string(), "authors");
    assert_eq!(authors.columns().len(), 2);
    assert_eq!(physical.constraints().len(), 1);
    let Constraint::ForeignKey(constraint) = &physical.constraints()[0];
    assert_eq!(constraint.table_name().to_string(), "books");
    assert_eq!(names(constraint.column_names()), vec!["author_id"]);
    assert_eq!(constraint.other_table_name().to_string(), "authors");
    assert_eq!(names(constraint.other_table_column_names()), vec!["id"]);

    let mut sql = String::new();
    physical.write_sql_create(&mut sql, SQL::PostgreSQL);
    assert_eq!(
        sql,
        "CREATE TABLE books (\n\
         \"id\" SERIAL,\n\
         \"title\" VARCHAR(100),\n\
         \"author_id\" INTEGER,\n\
         PRIMARY KEY (\"id\")\n\
         );\n\
         CREATE TABLE authors (\n\
         \"id\" SERIAL,\n\
         \"name\" VARCHAR(50),\n\
         PRIMARY KEY (\"id\")\n\
         );\n\
         ALTER TABLE books ADD FOREIGN KEY (\"author_id\") REFERENCES authors(\"id\");\n"
    );
}

#[test]
fn the_relation_cannot_go_into_the_table_of_the_authors() {
    let errors = physical_errors(with(
        library(),
        vec![
            entity_table("books", "Book", vec![]),
            entity_table("authors", "Author", vec![foreign_key("author_id", "Wrote")]),
        ],
    ));
    assert_eq!(
        errors,
        vec![
            PhysicalError::ImpossibleForeignKey(ident("Wrote"), ident("authors")),
            PhysicalError::ForgottenEntityOrRelation(ident("Wrote")),
        ]
    );
}

#[test]
fn sql_is_appended_to_what_is_there() {
    let description = PhysicalDescription::try_from(vec![
        Expr::Entity(ident("E"), vec![key("k", DataType::Boolean)]),
        entity_table("e", "E", vec![]),
    ])
    .unwrap();
    let mut sql = String::from("-- made\n");
    description.to_physical().write_sql_create(&mut sql, SQL::MSSQL);
    assert_eq!(sql, "-- made\nCREATE TABLE e (\n[k] BIT,\nPRIMARY KEY ([k])\n);\n");
}

fn people() -> Vec<Expr> {
    vec![
        Expr::Entity(ident("Person"), vec![key("id", DataType::AutoIncrement)]),
        Expr::Relation(
            ident("Knows"),
            None,
            vec![
                member(RelationCardinality::Multiple, "Person"),
                member(RelationCardinality::Multiple, "Person"),
            ],
            vec![plain("since", DataType::Date)],
        ),
        entity_table("people", "Person", vec![]),
        relation_table("knows", "Knows"),
    ]
}

#[test]
fn the_two_sides_of_a_relation_of_an_entity_with_itself_are_told_apart() {
    let physical = PhysicalDescription::try_from(people()).unwrap().to_physical();
    let knows = &physical.tables()[1];
    assert_eq!(knows.name().to_string(), "knows");
    let columns: Vec<(String, DataType)> =
        knows.columns().iter().map(|c| (c.name().to_string(), c.datatype())).collect();
    assert_eq!(
        columns,
        vec![
            ("since".to_string(), DataType::Date),
            ("Person_id".to_string(), DataType::Integer),
            ("Person_id2".to_string(), DataType::Integer),
        ]
    );
    assert_eq!(names(knows.primary_key_parts()), vec!["Person_id", "Person_id2"]);
    assert_eq!(physical.constraints().len(), 2);
    let Constraint::ForeignKey(first) = &physical.constraints()[0];
    let Constraint::ForeignKey(second) = &physical.constraints()[1];
    assert_eq!(first.table_name().to_string(), "knows");
    assert_eq!(names(first.column_names()), vec!["Person_id"]);
    assert_eq!(first.other_table_name().to_string(), "people");
    assert_eq!(names(first.other_table_column_names()), vec!["id"]);
    assert_eq!(second.table_name().to_string(), "knows");
    assert_eq!(names(second.column_names()), vec!["Person_id2"]);
    assert_eq!(second.other_table_name().to_string(), "people");
    assert_eq!(names(second.other_table_column_names()), vec!["id"]);

    let mut sql = String::new();
    physical.write_sql_create(&mut sql, SQL::MySQL);
    assert_eq!(
        sql,
        "CREATE TABLE people (\n\
         `id` INT AUTO_INCREMENT,\n\
         PRIMARY KEY (`id`)\n\
         );\n\
         CREATE TABLE knows (\n\
         `since` DATE,\n\
         `Person_id` INT,\n\
         `Person_id2` INT,\n\
         PRIMARY KEY (`Person_id`,`Person_id2`)\n\
         );\n\
         ALTER TABLE knows ADD FOREIGN KEY (`Person_id`) REFERENCES people(`id`);\n\
         ALTER TABLE knows ADD FOREIGN KEY (`Person_id2`) REFERENCES people(`id`);\n"
    );
}

#[test]
fn a_varchar_key_keeps_its_length_in_the_columns_that_refer_to_it() {
    let physical = PhysicalDescription::try_from(vec![
        Expr::Entity(ident("Country"), vec![key("code", DataType::Varchar(40))]),
        Expr::Entity(ident("City"), vec![key("nr", DataType::AutoIncrement)]),
        Expr::Relation(
            ident("In"),
            None,
            vec![
                member(RelationCardinality::Multiple, "City"),
                member(RelationCardinality::One, "Country"),
            ],
            vec![],
        ),
        Expr::Relation(
            ident("Twin"),
            None,
            vec![
                member(RelationCardinality::Multiple, "City"),
                member(RelationCardinality::Multiple, "Country"),
            ],
            vec![plain("nr", DataType::AutoIncrement)],
        ),
        entity_table("countries", "Country", vec![]),
        entity_table("cities", "City", vec![foreign_key("country", "In")]),
        relation_table("twins", "Twin"),
    ])
    .unwrap()
    .to_physical();
    let cities = &physical.tables()[1];
    let columns: Vec<(String, DataType)> =
        cities.columns().iter().map(|c| (c.name().to_string(), c.datatype())).collect();
    assert_eq!(
        columns,
        vec![
            ("nr".to_string(), DataType::AutoIncrement),
            ("country".to_string(), DataType::Varchar(40)),
        ]
    );
    let twins = &physical.tables()[2];
    let columns: Vec<(String, DataType)> =
        twins.columns().iter().map(|c| (c.name().to_string(), c.datatype())).collect();
    assert_eq!(
        columns,
        vec![
            ("nr".to_string(), DataType::Integer),
            ("City_nr".to_string(), DataType::Integer),
            ("Country_code".to_string(), DataType::Varchar(40)),
        ]
    );
    assert_eq!(names(twins.primary_key_parts()), vec!["City_nr", "Country_code"]);
}

#[test]
fn a_foreign_key_to_an_entity_with_several_keys_has_a_column_for_each() {
    let physical = PhysicalDescription::try_from(vec![
        Expr::Entity(
            ident("Order"),
            vec![
                key("shop", DataType::Integer),
                key("nr", DataType::AutoIncrement),
                plain("day", DataType::Date),
            ],
        ),
        Expr::Entity(ident("Line"), vec![key("id", DataType::Integer)]),
        Expr::Entity(ident("Note"), vec![plain("text", DataType::Varchar(9))]),
        Expr::Relation(
            ident("Has"),
            None,
            vec![
                member(RelationCardinality::One, "Order"),
                member(RelationCardinality::Multiple, "Line"),
            ],
            vec![],
        ),
        Expr::Relation(
            ident("About"),
            None,
            vec![
                member(RelationCardinality::Multiple, "Line"),
                member(RelationCardinality::One, "Note"),
            ],
            vec![],
        ),
        entity_table("orders", "Order", vec![]),
        entity_table("notes", "Note", vec![]),
        entity_table(
            "lines",
            "Line",
            vec![foreign_key("order", "Has"), foreign_key("note", "About")],
        ),
    ])
    .unwrap()
    .to_physical();
    let lines = &physical.tables()[2];
    let columns: Vec<(String, DataType)> =
        lines.columns().iter().map(|c| (c.name().to_string(), c.datatype())).collect();
    assert_eq!(
        columns,
        vec![
            ("id".to_string(), DataType::Integer),
            ("order_shop".to_string(), DataType::Integer),
            ("order_nr".to_string(), DataType::Integer),
        ]
    );
    assert_eq!(names(physical.tables()[0].primary_key_parts()), vec!["shop", "nr"]);
    assert_eq!(names(physical.tables()[1].primary_key_parts()), Vec::<String>::new());
    assert_eq!(physical.constraints().len(), 2);
    let Constraint::ForeignKey(order) = &physical.constraints()[0];
    assert_eq!(names(order.column_names()), vec!["order_shop", "order_nr"]);
    assert_eq!(order.other_table_name().to_string(), "orders");
    assert_eq!(names(order.other_table_column_names()), vec!["shop", "nr"]);
    let Constraint::ForeignKey(note) = &physical.constraints()[1];
    assert_eq!(names(note.column_names()), Vec::<String>::new());
    assert_eq!(note.other_table_name().to_string(), "notes");
    assert_eq!(names(note.other_table_column_names()), Vec::<String>::new());
}

#[test]
fn every_entity_and_relation_is_laid_out_once() {
    let tables = vec![
        entity_table("books", "Book", vec![foreign_key("author_id", "Wrote")]),
        entity_table("authors", "Author", vec![]),
    ];
    assert!(PhysicalDescription::try_from(with(library(), tables)).is_ok());
    assert_eq!(
        physical_errors(with(library(), vec![entity_table("books", "Book", vec![])])),
        vec![
            PhysicalError::ForgottenEntityOrRelation(ident("Author")),
            PhysicalError::ForgottenEntityOrRelation(ident("Wrote")),
        ]
    );
    assert_eq!(
        physical_errors(with(
            library(),
            vec![
                entity_table("books", "Book", vec![foreign_key("author_id", "Wrote")]),
                entity_table("authors", "Author", vec![]),
                relation_table("wrote", "Wrote"),
            ]
        )),
        vec![PhysicalError::ConvertedMoreThanOnce(ident("Wrote"))]
    );
    assert_eq!(
        physical_errors(with(
            library(),
            vec![
                relation_table("wrote", "Wrote"),
                entity_table("books", "Book", vec![foreign_key("author_id", "Wrote")]),
                entity_table("authors", "Author", vec![]),
                entity_table("writers", "Author", vec![]),
            ]
        )),
        vec![
            PhysicalError::ConvertedMoreThanOnce(ident("Wrote")),
            PhysicalError::ConvertedMoreThanOnce(ident("Author")),
        ]
    );
}

#[test]
fn every_kind_of_layout_fault_is_found_in_the_order_of_the_tables() {
    let declarations = vec![
        Expr::Entity(ident("A"), vec![key("id", DataType::Integer)]),
        Expr::Entity(ident("B"), vec![key("id", DataType::Integer)]),
        Expr::Entity(ident("C"), vec![key("id", DataType::Integer)]),
        Expr::Relation(
            ident("AB"),
            None,
            vec![member(RelationCardinality::One, "A"), member(RelationCardinality::Multiple, "B")],
            vec![],
        ),
        Expr::Relation(
            ident("ABC"),
            None,
            vec![
                member(RelationCardinality::One, "A"),
                member(RelationCardinality::One, "B"),
                member(RelationCardinality::One, "C"),
            ],
            vec![],
        ),
        entity_table("t", "A", vec![foreign_key("x", "B"), foreign_key("x", "ABC")]),
        entity_table("t", "Missing", vec![foreign_key("y", "AB")]),
        relation_table("u", "A"),
        entity_table("v", "AB", vec![]),
        entity_table(
            "b",
            "B",
            vec![foreign_key("id", "AB"), foreign_key("other", "AB")],
        ),
        entity_table("a", "A", vec![]),
    ];
    assert_eq!(
        physical_errors(declarations),
        vec![
            PhysicalError::ForeignKeyToEntityInTable(ident("B"), ident("t")),
            PhysicalError::DuplicateColumnNameInTable(ident("x"), ident("t")),
            PhysicalError::UnsupportedRelationDegree(ident("ABC")),
            PhysicalError::DuplicateTableName(ident("t")),
            PhysicalError::UnknownEntityOrRelationInTable(ident("Missing"), ident("t")),
            PhysicalError::UnknownEntityOrRelationInTable(ident("A"), ident("u")),
            PhysicalError::UnknownEntityOrRelationInTable(ident("AB"), ident("v")),
            PhysicalError::DuplicateColumnNameInTable(ident("id"), ident("b")),
            PhysicalError::ConvertedMoreThanOnce(ident("AB")),
            PhysicalError::ConvertedMoreThanOnce(ident("A")),
            PhysicalError::ForgottenEntityOrRelation(ident("C")),
            PhysicalError::ForgottenEntityOrRelation(ident("ABC")),
        ]
    );
}

#[test]
fn the_faults_of_the_schema_come_before_those_of_the_layout() {
    let declarations = vec![
        Expr::Entity(ident("A"), vec![]),
        Expr::Entity(ident("A"), vec![]),
        entity_table("t", "Missing", vec![]),
    ];
    assert_eq!(
        PhysicalDescription::try_from(declarations),
        Err(PhysicalERDError::ERD(vec![ERDError::DuplicateIdent(ident("A"))]))
    );
}

#[test]
fn an_attribute_without_a_type_cannot_become_a_column() {
    let untyped = Attribute { ident: ident("nick"), kind: AttributeType::Normal, datatype: None };
    let description = PhysicalDescription::try_from(vec![
        Expr::Entity(ident("P"), vec![key("id", DataType::Integer), untyped]),
        Expr::Entity(ident("Q"), vec![key("id", DataType::Integer)]),
        entity_table("p", "P", vec![]),
        entity_table("q", "Q", vec![]),
    ])
    .unwrap();
    assert!(!description.can_materialize());
    assert!(!description.tables()[0].can_materialize(description.erd()));
    assert!(description.tables()[1].can_materialize(description.erd()));
    let q = description.tables()[1].to_table(description.erd());
    assert_eq!(q.name().to_string(), "q");
    assert_eq!(names(q.primary_key_parts()), vec!["id"]);
}

#[test]
fn the_wishes_for_tables_can_be_asked() {
    let description = PhysicalDescription::try_from(people()).unwrap();
    let tables = description.tables();
    assert_eq!(tables.len(), 2);
    assert_eq!(tables[0].name(), ident("people"));
    assert_eq!(tables[0].er(), ident("Person"));
    assert_eq!(tables[1].name(), ident("knows"));
    assert_eq!(tables[1].er(), ident("Knows"));
    assert!(tables[0].check_entity_or_relation(description.erd()));
    assert!(tables[1].check_entity_or_relation(description.erd()));
    match &tables[0] {
        TableDescription::Entity(table) => {
            assert!(table.check_entity(description.erd()));
            assert!(table.can_materialize(description.erd()));
            assert_eq!(table.to_table(description.erd()).name().to_string(), "people");
        }
        TableDescription::Relation(_) => panic!("a table of an entity was wished for"),
    }
    match &tables[1] {
        TableDescription::Relation(table) => {
            assert!(table.check_relation(description.erd()));
            assert!(table.can_materialize(description.erd()));
            assert_eq!(table.to_table(description.erd()).columns().len(), 3);
        }
        TableDescription::Entity(_) => panic!("a table of a relation was wished for"),
    }
}

#[test]
fn layout_errors_are_told_in_sentences() {
    assert_eq!(
        PhysicalError::DuplicateTableName(ident("t")).to_string(),
        "Table name t is used multiple times."
    );
    assert_eq!(
        PhysicalError::DuplicateColumnNameInTable(ident("c"), ident("t")).to_string(),
        "Multiple columns named c in table t."
    );
    assert_eq!(
        PhysicalError::UnknownEntityOrRelationInTable(ident("E"), ident("t")).to_string(),
        "Unknown entity or relation E in table t."
    );
    assert_eq!(
        PhysicalError::ConvertedMoreThanOnce(ident("E")).to_string(),
        "Relation or entity E is converted more than once to a table."
    );
    assert_eq!(
        PhysicalError::ForgottenEntityOrRelation(ident("E")).to_string(),
        "Relation or entity E is not converted to the physical representation."
    );
    assert_eq!(
        PhysicalError::UnsupportedRelationDegree(ident("R")).to_string(),
        "Relation R has a degree different from 2 and that is (currently) not supported. Please convert the relation to relations of degree 2."
    );
    assert_eq!(
        PhysicalError::ImpossibleForeignKey(ident("R"), ident("t")).to_string(),
        "It is impossible to create table t with foreign key R."
    );
    assert_eq!(
        PhysicalError::ForeignKeyToEntityInTable(ident("E"), ident("t")).to_string(),
        "You created a foreign key to the entity E in table t instead of to a relation."
    );
}

#[test]
fn a_layout_is_made_from_the_records_of_a_document() {
    let records = vec![
        ParserExpr::Entity(
            "Author".to_string(),
            vec![("id".to_string(), "id".to_string(), Some("autoincrement".to_string()))],
        ),
        ParserExpr::Entity(
            "Book".to_string(),
            vec![("id".to_string(), "id".to_string(), Some("autoincrement".to_string()))],
        ),
        ParserExpr::Relation(
            "Wrote".to_string(),
            None,
            vec![
                ("one".to_string(), "required".to_string(), "Author".to_string()),
                ("multiple".to_string(), "required".to_string(), "Book".to_string()),
            ],
            vec![],
        ),
        ParserExpr::EntityTable(
            "books".to_string(),
            "Book".to_string(),
            vec![("author_id".to_string(), "Wrote".to_string())],
        ),
        ParserExpr::EntityTable("authors".to_string(), "Author".to_string(), vec![]),
    ];
    let description = PhysicalDescription::from_script(&records).unwrap();
    let mut sql = String::new();
    description.to_physical().write_sql_create(&mut sql, SQL::SQLite);
    assert_eq!(
        sql,
        "CREATE TABLE books (\n\
         \"id\" INTEGER,\n\
         \"author_id\" INTEGER,\n\
         PRIMARY KEY (\"id\")\n\
         );\n\
         CREATE TABLE authors (\n\
         \"id\" INTEGER,\n\
         PRIMARY KEY (\"id\")\n\
         );\n\
         ALTER TABLE books ADD FOREIGN KEY (\"author_id\") REFERENCES authors(\"id\");\n"
    );
    assert_eq!(description.to_dot(), description.erd().to_dot());
}

#[test]
fn the_failures_of_a_document_are_passed_on() {
    let unknown = vec![ParserExpr::Relation(
        "R".to_string(),
        None,
        vec![("some".to_string(), "required".to_string(), "A".to_string())],
        vec![],
    )];
    assert_eq!(
        PhysicalDescription::from_script(&unknown),
        Err(PhysicalFromScriptError::ParsingError(ConsumeError::UnknownParseError))
    );
    let faulty = vec![
        ParserExpr::Entity("A".to_string(), vec![]),
        ParserExpr::Entity("A".to_string(), vec![]),
    ];
    assert_eq!(
        PhysicalDescription::from_script(&faulty),
        Err(PhysicalFromScriptError::ERDError(vec![ERDError::DuplicateIdent(ident("A"))]))
    );
    let forgotten = vec![ParserExpr::Entity("A".to_string(), vec![])];
    assert_eq!(
        PhysicalDescription::from_script(&forgotten),
        Err(PhysicalFromScriptError::PhysicalError(vec![
            PhysicalError::ForgottenEntityOrRelation(ident("A"))
        ]))
    );
    assert_eq!(
        PhysicalFromScriptError::from(PhysicalERDError::Physical(vec![])),
        PhysicalFromScriptError::PhysicalError(vec![])
    );
    assert_eq!(
        PhysicalFromScriptError::from(PhysicalERDError::ERD(vec![])),
        PhysicalFromScriptError::ERDError(vec![])
    );
}

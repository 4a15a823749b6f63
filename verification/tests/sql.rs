use erd_script::ast::{DataType, Ident};
use erd_script::sql::SQL;

#[test]
fn products_are_known_by_their_names() {
    assert_eq!(SQL::from_str("mssql"), Some(SQL::MSSQL));
    assert_eq!(SQL::from_str("mysql"), Some(SQL::MySQL));
    assert_eq!(SQL::from_str("postgresql"), Some(SQL::PostgreSQL));
    assert_eq!(SQL::from_str("sqlite"), Some(SQL::SQLite));
    assert_eq!(SQL::from_str("MySQL"), None);
    assert_eq!(SQL::from_str(""), None);
}

#[test]
fn names_of_columns_are_quoted() {
    let name = Ident("author_id".to_string());
    assert_eq!(SQL::MSSQL.to_column_ident(&name), "[author_id]");
    assert_eq!(SQL::MySQL.to_column_ident(&name), "`author_id`");
    assert_eq!(SQL::PostgreSQL.to_column_ident(&name), "\"author_id\"");
    assert_eq!(SQL::SQLite.to_column_ident(&name), "\"author_id\"");
}

#[test]
fn quoting_marks_in_names_are_doubled() {
    assert_eq!(SQL::MSSQL.to_column_ident(&Ident("a]b[c".to_string())), "[a]]b[c]");
    assert_eq!(SQL::MySQL.to_column_ident(&Ident("`".to_string())), "````");
    assert_eq!(SQL::PostgreSQL.to_column_ident(&Ident("say \"é\"".to_string())), "\"say \"\"é\"\"\"");
    assert_eq!(SQL::SQLite.to_column_ident(&Ident("".to_string())), "\"\"");
}

#[test]
fn types_are_spelled_as_each_product_has_them() {
    let all = [
        DataType::Integer,
        DataType::AutoIncrement,
        DataType::Float,
        DataType::Boolean,
        DataType::Date,
        DataType::Time,
        DataType::DateTime,
        DataType::Varchar(255),
    ];
    let spelled = |sql: SQL| all.iter().map(|d| sql.to_data_type(d)).collect::<Vec<String>>();
    assert_eq!(
        spelled(SQL::MSSQL),
        vec!["INT", "INT IDENTITY(1,1)", "FLOAT", "BIT", "DATE", "TIME", "DATETIME2", "VARCHAR(255)"]
    );
    assert_eq!(
        spelled(SQL::MySQL),
        vec![
            "INT",
            "INT AUTO_INCREMENT",
            "FLOAT",
            "BOOLEAN",
            "DATE",
            "TIME",
            "DATETIME",
            "VARCHAR(255)"
        ]
    );
    assert_eq!(
        spelled(SQL::PostgreSQL),
        vec!["INTEGER", "SERIAL", "REAL", "BOOLEAN", "DATE", "TIME", "TIMESTAMP", "VARCHAR(255)"]
    );
    assert_eq!(
        spelled(SQL::SQLite),
        vec!["INTEGER", "INTEGER", "REAL", "BOOLEAN", "DATE", "TIME", "DATETIME", "VARCHAR(255)"]
    );
}

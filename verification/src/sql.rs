//! The SQL products that a physical schema can be written for: how each
//! spells a column's name and a data type.

use crate::ast::{DataType, Ident};
use crate::text::{decimal_digits, push_char, push_decimal, same_text};
use vstd::prelude::*;
use vstd::string::{is_ascii, StrSliceExecFns, StringExecFns};

verus! {

/// An SQL product.
#[derive(Clone, Copy, Debug, PartialEq, Eq, Structural)]
pub enum SQL {
    MSSQL,
    MySQL,
    PostgreSQL,
    SQLite,
}

/// `name` with every `mark` in it written twice.
pub open spec fn doubled(name: Seq<char>, mark: char) -> Seq<char>
    decreases name.len(),
{
    if name.len() == 0 {
        Seq::empty()
    } else if name.last() == mark {
        doubled(name.drop_last(), mark).push(mark).push(mark)
    } else {
        doubled(name.drop_last(), mark).push(name.last())
    }
}

impl SQL {
    /// The product that a word names: `mssql`, `mysql`, `postgresql` or
    /// `sqlite`. Any other word names none.
    pub open spec fn spec_from_str(word: Seq<char>) -> Option<SQL> {
        if word == "mssql"@ {
            Some(SQL::MSSQL)
        } else if word == "mysql"@ {
            Some(SQL::MySQL)
        } else if word == "postgresql"@ {
            Some(SQL::PostgreSQL)
        } else if word == "sqlite"@ {
            Some(SQL::SQLite)
        } else {
            None
        }
    }

    /// The product that a word names.
    pub fn from_str(word: &str) -> (sql: Option<SQL>)
        ensures
            sql == Self::spec_from_str(word@),
    {
        if same_text(word, "mssql") {
            Some(SQL::MSSQL)
        } else if same_text(word, "mysql") {
            Some(SQL::MySQL)
        } else if same_text(word, "postgresql") {
            Some(SQL::PostgreSQL)
        } else if same_text(word, "sqlite") {
            Some(SQL::SQLite)
        } else {
            None
        }
    }

    /// The mark that opens a quoted name.
    pub open spec fn opening(self) -> char {
        match self {
            SQL::MSSQL => '[',
            SQL::MySQL => '`',
            SQL::PostgreSQL => '"',
            SQL::SQLite => '"',
        }
    }

    /// The mark that closes a quoted name.
    pub open spec fn closing(self) -> char {
        match self {
            SQL::MSSQL => ']',
            SQL::MySQL => '`',
            SQL::PostgreSQL => '"',
            SQL::SQLite => '"',
        }
    }

    /// How the product spells the name of a column: between its quoting
    /// marks, with every closing mark inside the name written twice.
    pub open spec fn column_ident(self, name: Seq<char>) -> Seq<char> {
        seq![self.opening()] + doubled(name, self.closing()) + seq![self.closing()]
    }

    /// How the product spells a data type.
    pub open spec fn data_type(self, datatype: DataType) -> Seq<char> {
        match datatype {
            DataType::Integer => match self {
                SQL::MSSQL => "INT"@,
                SQL::MySQL => "INT"@,
                SQL::PostgreSQL => "INTEGER"@,
                SQL::SQLite => "INTEGER"@,
            },
            DataType::AutoIncrement => match self {
                SQL::MSSQL => "INT IDENTITY(1,1)"@,
                SQL::MySQL => "INT AUTO_INCREMENT"@,
                SQL::PostgreSQL => "SERIAL"@,
                SQL::SQLite => "INTEGER"@,
            },
            DataType::Float => match self {
                SQL::MSSQL => "FLOAT"@,
                SQL::MySQL => "FLOAT"@,
                SQL::PostgreSQL => "REAL"@,
                SQL::SQLite => "REAL"@,
            },
            DataType::Boolean => match self {
                SQL::MSSQL => "BIT"@,
                SQL::MySQL => "BOOLEAN"@,
                SQL::PostgreSQL => "BOOLEAN"@,
                SQL::SQLite => "BOOLEAN"@,
            },
            DataType::Date => "DATE"@,
            DataType::Time => "TIME"@,
            DataType::DateTime => match self {
                SQL::MSSQL => "DATETIME2"@,
                SQL::MySQL => "DATETIME"@,
                SQL::PostgreSQL => "TIMESTAMP"@,
                SQL::SQLite => "DATETIME"@,
            },
            DataType::Varchar(n) => "VARCHAR("@ + decimal_digits(n as nat) + ")"@,
        }
    }

    /// How the product spells the name of a column.
    pub fn to_column_ident(&self, ident: &Ident) -> (text: String)
        ensures
            text@ == self.column_ident(ident@),
    {
        let (opening, closing) = match self {
            SQL::MSSQL => ('[', ']'),
            SQL::MySQL => ('`', '`'),
            SQL::PostgreSQL => ('"', '"'),
            SQL::SQLite => ('"', '"'),
        };
        let name = ident.0.as_str();
        let plain = name.is_ascii();
        let n = name.unicode_len();
        let mut text = String::new();
        push_char(&mut text, opening);
        let mut i: usize = 0;
        assert(name@.take(0) =~= Seq::<char>::empty());
        assert(text@ =~= seq![opening] + doubled(name@.take(0), closing));
        while i < n
            invariant
                i <= n,
                n == name@.len(),
                plain == is_ascii(name),
                text@ == seq![opening] + doubled(name@.take(i as int), closing),
            decreases n - i,
        {
            let c = if plain {
                name.get_ascii(i) as char
            } else {
                name.get_char(i)
            };
            assert(c == name@[i as int]);
            proof {
                assert(name@.take(i + 1).drop_last() =~= name@.take(i as int));
                assert(name@.take(i + 1).last() == c);
            }
            if c == closing {
                push_char(&mut text, c);
            }
            push_char(&mut text, c);
            assert(text@ =~= seq![opening] + doubled(name@.take(i + 1), closing));
            i += 1;
        }
        assert(name@.take(i as int) =~= name@);
        push_char(&mut text, closing);
        assert(text@ =~= self.column_ident(ident@));
        text
    }

    /// How the product spells a data type.
    pub fn to_data_type(&self, datatype: &DataType) -> (text: String)
        ensures
            text@ == self.data_type(*datatype),
    {
        match datatype {
            DataType::Integer => match self {
                SQL::MSSQL => String::from_str("INT"),
                SQL::MySQL => String::from_str("INT"),
                SQL::PostgreSQL => String::from_str("INTEGER"),
                SQL::SQLite => String::from_str("INTEGER"),
            },
            DataType::AutoIncrement => match self {
                SQL::MSSQL => String::from_str("INT IDENTITY(1,1)"),
                SQL::MySQL => String::from_str("INT AUTO_INCREMENT"),
                SQL::PostgreSQL => String::from_str("SERIAL"),
                SQL::SQLite => String::from_str("INTEGER"),
            },
            DataType::Float => match self {
                SQL::MSSQL => String::from_str("FLOAT"),
                SQL::MySQL => String::from_str("FLOAT"),
                SQL::PostgreSQL => String::from_str("REAL"),
                SQL::SQLite => String::from_str("REAL"),
            },
            DataType::Boolean => match self {
                SQL::MSSQL => String::from_str("BIT"),
                SQL::MySQL => String::from_str("BOOLEAN"),
                SQL::PostgreSQL => String::from_str("BOOLEAN"),
                SQL::SQLite => String::from_str("BOOLEAN"),
            },
            DataType::Date => String::from_str("DATE"),
            DataType::Time => String::from_str("TIME"),
            DataType::DateTime => match self {
                SQL::MSSQL => String::from_str("DATETIME2"),
                SQL::MySQL => String::from_str("DATETIME"),
                SQL::PostgreSQL => String::from_str("TIMESTAMP"),
                SQL::SQLite => String::from_str("DATETIME"),
            },
            DataType::Varchar(n) => {
                let mut text = String::from_str("VARCHAR(");
                push_decimal(&mut text, *n);
                text.append(")");
                text
            },
        }
    }
}

} // verus!

use erd_script::ast::{
    Attribute, AttributeType, DataType, ForeignKey, Ident, RelationCardinality, RelationMember,
    RelationOptionality,
};
use erd_script::text::{decimal_string, same_text};

#[test]
fn a_reference_to_an_autoincrement_key_is_an_integer() {
    assert_eq!(DataType::AutoIncrement.foreign_key_type(), DataType::Integer);
}

#[test]
fn a_reference_to_any_other_key_has_the_type_of_the_key() {
    assert_eq!(DataType::Varchar(40).foreign_key_type(), DataType::Varchar(40));
    assert_eq!(DataType::Integer.foreign_key_type(), DataType::Integer);
    assert_eq!(DataType::Float.foreign_key_type(), DataType::Float);
    assert_eq!(DataType::Boolean.foreign_key_type(), DataType::Boolean);
    assert_eq!(DataType::Date.foreign_key_type(), DataType::Date);
    assert_eq!(DataType::Time.foreign_key_type(), DataType::Time);
    assert_eq!(DataType::DateTime.foreign_key_type(), DataType::DateTime);
}

#[test]
fn type_names_are_read() {
    assert_eq!(DataType::from_token("integer"), Some(DataType::Integer));
    assert_eq!(DataType::from_token("autoincrement"), Some(DataType::AutoIncrement));
    assert_eq!(DataType::from_token("float"), Some(DataType::Float));
    assert_eq!(DataType::from_token("boolean"), Some(DataType::Boolean));
    assert_eq!(DataType::from_token("date"), Some(DataType::Date));
    assert_eq!(DataType::from_token("time"), Some(DataType::Time));
    assert_eq!(DataType::from_token("datetime"), Some(DataType::DateTime));
    assert_eq!(DataType::from_token("varchar(50)"), Some(DataType::Varchar(50)));
    assert_eq!(DataType::from_token("varchar(0)"), Some(DataType::Varchar(0)));
    assert_eq!(DataType::from_token("varchar(007)"), Some(DataType::Varchar(7)));
}

#[test]
fn other_words_name_no_type() {
    assert_eq!(DataType::from_token(""), None);
    assert_eq!(DataType::from_token("Integer"), None);
    assert_eq!(DataType::from_token("varchar"), None);
    assert_eq!(DataType::from_token("varchar()"), None);
    assert_eq!(DataType::from_token("varchar(12"), None);
    assert_eq!(DataType::from_token("varchar(1x)"), None);
    assert_eq!(DataType::from_token("varchar(+1)"), None);
    assert_eq!(DataType::from_token("varchar(é)"), None);
    assert_eq!(DataType::from_token("varchar(99999999999999999999999999)"), None);
}

#[test]
fn cardinalities_are_read() {
    assert_eq!(RelationCardinality::from_token("one"), Some(RelationCardinality::One));
    assert_eq!(RelationCardinality::from_token("multiple"), Some(RelationCardinality::Multiple));
    assert_eq!(RelationCardinality::from_token("exactly3)"), Some(RelationCardinality::Exact(3)));
    assert_eq!(RelationCardinality::from_token("exactly12)"), Some(RelationCardinality::Exact(12)));
    assert_eq!(RelationCardinality::from_token("exactly0)"), None);
    assert_eq!(RelationCardinality::from_token("exactly)"), None);
    assert_eq!(RelationCardinality::from_token("exactly3"), None);
    assert_eq!(RelationCardinality::from_token("two"), None);
}

#[test]
fn optionalities_and_kinds_are_read() {
    assert_eq!(RelationOptionality::from_token("optional"), Some(RelationOptionality::Optional));
    assert_eq!(RelationOptionality::from_token("required"), Some(RelationOptionality::Required));
    assert_eq!(RelationOptionality::from_token("maybe"), None);
    assert_eq!(AttributeType::from_token("id"), Some(AttributeType::Key));
    assert_eq!(AttributeType::from_token("attribute"), Some(AttributeType::Normal));
    assert_eq!(AttributeType::from_token("key"), None);
}

#[test]
fn attributes_members_and_foreign_keys_are_read() {
    assert_eq!(
        Attribute::from_tokens(("id".to_string(), "nr".to_string(), Some("integer".to_string()))),
        Some(Attribute {
            ident: Ident("nr".to_string()),
            kind: AttributeType::Key,
            datatype: Some(DataType::Integer),
        })
    );
    assert_eq!(
        Attribute::from_tokens(("attribute".to_string(), "nick".to_string(), None)),
        Some(Attribute {
            ident: Ident("nick".to_string()),
            kind: AttributeType::Normal,
            datatype: None,
        })
    );
    assert_eq!(
        Attribute::from_tokens(("id".to_string(), "nr".to_string(), Some("number".to_string()))),
        None
    );
    assert_eq!(Attribute::from_tokens(("x".to_string(), "nr".to_string(), None)), None);
    assert_eq!(
        RelationMember::from_tokens((
            "multiple".to_string(),
            "optional".to_string(),
            "Book".to_string()
        )),
        Some(RelationMember {
            cardinality: RelationCardinality::Multiple,
            optionality: RelationOptionality::Optional,
            entity: Ident("Book".to_string()),
        })
    );
    assert_eq!(
        RelationMember::from_tokens(("many".to_string(), "optional".to_string(), "B".to_string())),
        None
    );
    assert_eq!(
        RelationMember::from_tokens(("one".to_string(), "never".to_string(), "B".to_string())),
        None
    );
    assert_eq!(
        ForeignKey::from_tokens(("author_id".to_string(), "Wrote".to_string())),
        ForeignKey {
            attribute_name: Ident("author_id".to_string()),
            relation: Ident("Wrote".to_string()),
        }
    );
}

#[test]
fn the_label_of_a_member_follows_its_cardinality() {
    assert_eq!(RelationCardinality::One.get_amount('n'), ("1".to_string(), 'n'));
    assert_eq!(RelationCardinality::Exact(12).get_amount('m'), ("12".to_string(), 'm'));
    assert_eq!(RelationCardinality::Multiple.get_amount('n'), ("n".to_string(), 'm'));
    assert_eq!(RelationCardinality::Multiple.get_amount('m'), ("m".to_string(), 'o'));
    assert_eq!(RelationCardinality::Multiple.get_amount('o'), ("o".to_string(), 'p'));
}

#[test]
fn the_letters_go_round() {
    let mut symbol = 'n';
    let mut seen = String::new();
    for _ in 0..27 {
        let (label, next) = RelationCardinality::Multiple.get_amount(symbol);
        seen.push_str(&label);
        symbol = next;
    }
    assert_eq!(seen, "nmopqrstuvwxyzabcdefghijkln");
    assert_eq!(RelationCardinality::Multiple.get_amount('#'), ("#".to_string(), '#'));
}

#[test]
fn an_attribute_can_be_renamed() {
    let attribute = Attribute {
        ident: Ident("id".to_string()),
        kind: AttributeType::Key,
        datatype: Some(DataType::AutoIncrement),
    };
    let renamed = attribute.renamed(Ident("Person_id".to_string()));
    assert_eq!(renamed.get_ident(), Ident("Person_id".to_string()));
    assert_eq!(renamed.get_type(), AttributeType::Key);
    assert_eq!(renamed.get_data_type(), Some(DataType::AutoIncrement));
    assert_eq!(attribute.get_ident(), Ident("id".to_string()));
    assert!(attribute.same_identity(&Attribute {
        ident: Ident("id".to_string()),
        kind: AttributeType::Normal,
        datatype: None,
    }));
    assert!(!attribute.same_identity(&renamed));
}

#[test]
fn identifiers_are_told_apart_by_their_spelling() {
    let a = Ident::new("abc");
    assert!(a.same_as(&Ident("abc".to_string())));
    assert!(!a.same_as(&Ident("abd".to_string())));
    assert_eq!(a.to_string(), "abc");
    assert_eq!(a.clone(), a);
}

#[test]
fn numbers_are_written_in_decimal() {
    assert_eq!(decimal_string(0), "0");
    assert_eq!(decimal_string(7), "7");
    assert_eq!(decimal_string(10), "10");
    assert_eq!(decimal_string(4096), "4096");
    assert_eq!(decimal_string(usize::MAX), usize::MAX.to_string());
}

#[test]
fn the_largest_length_is_read_and_a_larger_one_is_not() {
    let largest = format!("varchar({})", usize::MAX);
    assert_eq!(DataType::from_token(&largest), Some(DataType::Varchar(usize::MAX)));
    let too_large = format!("varchar({}0)", usize::MAX);
    assert_eq!(DataType::from_token(&too_large), None);
    let next = format!("varchar({})", usize::MAX as u128 + 1);
    assert_eq!(DataType::from_token(&next), None);
    assert_eq!(DataType::from_token("varchar(42]"), None);
    assert_eq!(DataType::from_token("varchaR(42)"), None);
}

#[test]
fn texts_are_compared_by_their_spelling() {
    assert!(same_text("one", "one"));
    assert!(!same_text("one", "One"));
    assert!(!same_text("one", "ones"));
    assert!(same_text("", ""));
}

#[test]
fn identifiers_and_strings_turn_into_each_other() {
    let ident: Ident = "Person".to_string().into();
    assert_eq!(ident, Ident("Person".to_string()));
    let spelling: String = ident.into();
    assert_eq!(spelling, "Person");
}

//! The declarations of an entity-relationship document: identifiers, data
//! types, attributes, the members of a relation, and the four kinds of
//! declaration that a document is made of.

use crate::text::{
    bracketed_number, decimal_digits, fitting, parse_bracketed_number, push_char, push_decimal,
    same_text,
};
use vstd::prelude::*;
use vstd::string::StringExecFns;

verus! {

/// A name: of an entity, a relation, an attribute, a table or a column.
/// Two identifiers are the same when they are spelled the same; the view of
/// an identifier is its spelling.
#[derive(Debug, PartialEq, Eq, Hash)]
pub struct Ident(pub String);

impl View for Ident {
    type V = Seq<char>;

    open spec fn view(&self) -> Seq<char> {
        self.0@
    }
}

impl DeepView for Ident {
    type V = Seq<char>;

    open spec fn deep_view(&self) -> Seq<char> {
        self.0@
    }
}

impl Clone for Ident {
    fn clone(&self) -> (copy: Self)
        ensures
            copy == *self,
    {
        Ident(self.0.clone())
    }
}

impl From<String> for Ident {
    fn from(s: String) -> (ident: Ident) {
        Ident(s)
    }
}

impl vstd::std_specs::convert::FromSpecImpl<String> for Ident {
    open spec fn obeys_from_spec() -> bool {
        true
    }

    open spec fn from_spec(s: String) -> Ident {
        Ident(s)
    }
}

impl From<Ident> for String {
    fn from(i: Ident) -> (spelling: String) {
        i.0
    }
}

impl vstd::std_specs::convert::FromSpecImpl<Ident> for String {
    open spec fn obeys_from_spec() -> bool {
        true
    }

    open spec fn from_spec(i: Ident) -> String {
        i.0
    }
}

impl Ident {
    /// The identifier spelled `name`.
    pub fn new(name: &str) -> (ident: Ident)
        ensures
            ident@ == name@,
    {
        Ident(String::from_str(name))
    }

    /// Whether `other` is spelled as this identifier is.
    pub fn same_as(&self, other: &Ident) -> (same: bool)
        ensures
            same == (self@ == other@),
    {
        self.0 == other.0
    }

    /// The spelling of the identifier.
    pub fn to_string(&self) -> (text: String)
        ensures
            text@ == self@,
    {
        self.0.clone()
    }
}

/// The type of the values that an attribute or a column holds.
#[derive(Clone, Copy, Debug, PartialEq, Eq, Structural)]
pub enum DataType {
    Integer,
    AutoIncrement,
    Float,
    Boolean,
    Date,
    Time,
    DateTime,
    Varchar(usize),
}

impl DataType {
    /// The type of a column that refers to a key of this type.
    pub open spec fn spec_foreign_key_type(self) -> DataType {
        match self {
            DataType::AutoIncrement => DataType::Integer,
            other => other,
        }
    }

    /// The type of a column that refers to a key of this type: a reference
    /// to an auto-incrementing key is a plain integer, every other type is
    /// kept as it is, a `Varchar` with its length.
    pub fn foreign_key_type(&self) -> (referring: DataType)
        ensures
            referring == self.spec_foreign_key_type(),
    {
        match self {
            DataType::AutoIncrement => DataType::Integer,
            DataType::Integer => DataType::Integer,
            DataType::Float => DataType::Float,
            DataType::Boolean => DataType::Boolean,
            DataType::Date => DataType::Date,
            DataType::Time => DataType::Time,
            DataType::DateTime => DataType::DateTime,
            DataType::Varchar(n) => DataType::Varchar(*n),
        }
    }

    /// A column that refers to a key is never auto-incrementing: it is a
    /// plain integer where the key is auto-incrementing, and has the type
    /// of the key, a `Varchar` with its length, where it is not.
    pub proof fn lemma_foreign_key_type(self)
        ensures
            self.spec_foreign_key_type() != DataType::AutoIncrement,
            self == DataType::AutoIncrement ==> self.spec_foreign_key_type() == DataType::Integer,
            self != DataType::AutoIncrement ==> self.spec_foreign_key_type() == self,
            self.spec_foreign_key_type().spec_foreign_key_type() == self.spec_foreign_key_type(),
    {
    }

    /// The data type that a type name of a document stands for: one of the
    /// seven plain names, or `varchar(N)` with a length `N` in decimal
    /// digits that fits a `usize`. Any other text names no type.
    pub open spec fn spec_from_token(token: Seq<char>) -> Option<DataType> {
        if token == "integer"@ {
            Some(DataType::Integer)
        } else if token == "autoincrement"@ {
            Some(DataType::AutoIncrement)
        } else if token == "float"@ {
            Some(DataType::Float)
        } else if token == "boolean"@ {
            Some(DataType::Boolean)
        } else if token == "date"@ {
            Some(DataType::Date)
        } else if token == "time"@ {
            Some(DataType::Time)
        } else if token == "datetime"@ {
            Some(DataType::DateTime)
        } else {
            match fitting(bracketed_number(token, "varchar("@)) {
                Some(n) => Some(DataType::Varchar(n)),
                None => None,
            }
        }
    }

    /// Reads a type name of a document.
    pub fn from_token(token: &str) -> (datatype: Option<DataType>)
        ensures
            datatype == Self::spec_from_token(token@),
    {
        if same_text(token, "integer") {
            Some(DataType::Integer)
        } else if same_text(token, "autoincrement") {
            Some(DataType::AutoIncrement)
        } else if same_text(token, "float") {
            Some(DataType::Float)
        } else if same_text(token, "boolean") {
            Some(DataType::Boolean)
        } else if same_text(token, "date") {
            Some(DataType::Date)
        } else if same_text(token, "time") {
            Some(DataType::Time)
        } else if same_text(token, "datetime") {
            Some(DataType::DateTime)
        } else {
            proof {
                reveal_strlit("varchar(");
            }
            match parse_bracketed_number(token, "varchar(") {
                Some(n) => Some(DataType::Varchar(n)),
                None => None,
            }
        }
    }
}

/// Whether an attribute takes part in the key of its owner.
#[derive(Clone, Copy, Debug, PartialEq, Eq, Structural)]
pub enum AttributeType {
    Normal,
    Key,
}

impl AttributeType {
    /// The kind that a word of a document stands for: `id` for a key,
    /// `attribute` for any other attribute.
    pub open spec fn spec_from_token(token: Seq<char>) -> Option<AttributeType> {
        if token == "id"@ {
            Some(AttributeType::Key)
        } else if token == "attribute"@ {
            Some(AttributeType::Normal)
        } else {
            None
        }
    }

    /// Reads the word that opens an attribute.
    pub fn from_token(token: &str) -> (kind: Option<AttributeType>)
        ensures
            kind == Self::spec_from_token(token@),
    {
        if same_text(token, "id") {
            Some(AttributeType::Key)
        } else if same_text(token, "attribute") {
            Some(AttributeType::Normal)
        } else {
            None
        }
    }
}

/// An attribute of an entity or of a relation.
#[derive(Debug, PartialEq, Eq)]
pub struct Attribute {
    pub ident: Ident,
    pub kind: AttributeType,
    pub datatype: Option<DataType>,
}

/// What an [`Attribute`] holds.
pub struct AttributeView {
    pub ident: Seq<char>,
    pub kind: AttributeType,
    pub datatype: Option<DataType>,
}

impl DeepView for Attribute {
    type V = AttributeView;

    open spec fn deep_view(&self) -> AttributeView {
        AttributeView { ident: self.ident@, kind: self.kind, datatype: self.datatype }
    }
}

impl Clone for Attribute {
    fn clone(&self) -> (copy: Self)
        ensures
            copy == *self,
    {
        Attribute { ident: self.ident.clone(), kind: self.kind, datatype: self.datatype }
    }
}

impl AttributeView {
    /// The attribute that three words of a document stand for: its kind,
    /// its name, and the name of its type where it has one. There is none
    /// where the kind or the type is no word of the language.
    pub open spec fn from_tokens(
        tokens: (Seq<char>, Seq<char>, Option<Seq<char>>),
    ) -> Option<AttributeView> {
        match (AttributeType::spec_from_token(tokens.0), tokens.2) {
            (Some(kind), None) => Some(AttributeView { ident: tokens.1, kind, datatype: None }),
            (Some(kind), Some(name)) => match DataType::spec_from_token(name) {
                Some(datatype) => Some(
                    AttributeView { ident: tokens.1, kind, datatype: Some(datatype) },
                ),
                None => None,
            },
            (None, _) => None,
        }
    }
}

impl Attribute {
    pub fn get_ident(&self) -> (ident: Ident)
        ensures
            ident == self.ident,
    {
        self.ident.clone()
    }

    pub fn get_type(&self) -> (kind: AttributeType)
        ensures
            kind == self.kind,
    {
        self.kind
    }

    pub fn get_data_type(&self) -> (datatype: Option<DataType>)
        ensures
            datatype == self.datatype,
    {
        self.datatype
    }

    /// The same attribute under another name.
    pub fn renamed(&self, new_name: Ident) -> (attribute: Attribute)
        ensures
            attribute.ident == new_name,
            attribute.kind == self.kind,
            attribute.datatype == self.datatype,
    {
        Attribute { ident: new_name, kind: self.kind, datatype: self.datatype }
    }

    /// Whether `other` bears the name of this attribute. Attributes are told
    /// apart by their names alone, whatever their kinds and types.
    pub fn same_identity(&self, other: &Attribute) -> (same: bool)
        ensures
            same == (self.ident@ == other.ident@),
    {
        self.ident.same_as(&other.ident)
    }

    /// Reads an attribute from the three words that a document gives for it.
    pub fn from_tokens(tokens: (String, String, Option<String>)) -> (attribute: Option<Attribute>)
        ensures
            attribute.deep_view() == AttributeView::from_tokens(tokens.deep_view()),
    {
        let (kind_word, name, type_word) = tokens;
        let kind = match AttributeType::from_token(kind_word.as_str()) {
            Some(kind) => kind,
            None => { return None; },
        };
        let datatype = match type_word {
            Some(type_word) => match DataType::from_token(type_word.as_str()) {
                Some(datatype) => Some(datatype),
                None => { return None; },
            },
            None => None,
        };
        Some(Attribute { ident: Ident(name), kind, datatype })
    }
}

/// How many instances of an entity one instance of a relation ties
/// together: one, any number, or exactly so many.
#[derive(Clone, Copy, Debug, PartialEq, Eq, Structural)]
pub enum RelationCardinality {
    One,
    Multiple,
    Exact(usize),
}

/// The letter that follows `symbol` in the round of letters by which the
/// members of one relation that stand for any number are told apart:
/// `n`, `m`, `o`, `p` and so on to `z`, then `a` to `l`, then `n` again.
/// A character outside the lower-case letters is followed by itself.
pub open spec fn next_symbol(symbol: char) -> char {
    if symbol == 'n' {
        'm'
    } else if symbol == 'm' {
        'o'
    } else if symbol == 'l' {
        'n'
    } else if symbol == 'z' {
        'a'
    } else if 'a' <= symbol && symbol <= 'y' {
        ((symbol as u8) + 1) as char
    } else {
        symbol
    }
}

impl RelationCardinality {
    /// The label of a member with this cardinality, and the letter for the
    /// next member that stands for any number: `1` for one, the numeral for
    /// an exact number, both with the letter unchanged; for any number the
    /// letter `symbol` itself, with the letter that follows it.
    pub open spec fn spec_amount(self, symbol: char) -> (Seq<char>, char) {
        match self {
            RelationCardinality::One => ("1"@, symbol),
            RelationCardinality::Multiple => (seq![symbol], next_symbol(symbol)),
            RelationCardinality::Exact(n) => (decimal_digits(n as nat), symbol),
        }
    }

    pub fn get_amount(&self, multiple_amount: char) -> (amount: (String, char))
        ensures
            amount.0@ == self.spec_amount(multiple_amount).0,
            amount.1 == self.spec_amount(multiple_amount).1,
    {
        match self {
            RelationCardinality::One => (String::from_str("1"), multiple_amount),
            RelationCardinality::Multiple => {
                let mut label = String::new();
                push_char(&mut label, multiple_amount);
                assert(label@ =~= seq![multiple_amount]);
                let next = if multiple_amount == 'n' {
                    'm'
                } else if multiple_amount == 'm' {
                    'o'
                } else if multiple_amount == 'l' {
                    'n'
                } else if multiple_amount == 'z' {
                    'a'
                } else if 'a' <= multiple_amount && multiple_amount <= 'y' {
                    ((multiple_amount as u8) + 1) as char
                } else {
                    multiple_amount
                };
                (label, next)
            },
            RelationCardinality::Exact(n) => {
                let mut label = String::new();
                push_decimal(&mut label, *n);
                assert(label@ =~= decimal_digits(*n as nat));
                (label, multiple_amount)
            },
        }
    }

    /// The cardinality that a word of a document stands for: `one`,
    /// `multiple`, or `exactly` followed by a number of one or more in
    /// decimal digits and a closing round bracket.
    pub open spec fn spec_from_token(token: Seq<char>) -> Option<RelationCardinality> {
        if token == "one"@ {
            Some(RelationCardinality::One)
        } else if token == "multiple"@ {
            Some(RelationCardinality::Multiple)
        } else {
            match fitting(bracketed_number(token, "exactly"@)) {
                Some(n) => if n >= 1 {
                    Some(RelationCardinality::Exact(n))
                } else {
                    None
                },
                None => None,
            }
        }
    }

    /// Reads the cardinality of a member.
    pub fn from_token(token: &str) -> (cardinality: Option<RelationCardinality>)
        ensures
            cardinality == Self::spec_from_token(token@),
    {
        if same_text(token, "one") {
            Some(RelationCardinality::One)
        } else if same_text(token, "multiple") {
            Some(RelationCardinality::Multiple)
        } else {
            proof {
                reveal_strlit("exactly");
            }
            match parse_bracketed_number(token, "exactly") {
                Some(n) => if n >= 1 {
                    Some(RelationCardinality::Exact(n))
                } else {
                    None
                },
                None => None,
            }
        }
    }
}

/// Whether an instance of an entity may go without the relation.
#[derive(Clone, Copy, Debug, PartialEq, Eq, Structural)]
pub enum RelationOptionality {
    Optional,
    Required,
}

impl RelationOptionality {
    /// The optionality that a word of a document stands for.
    pub open spec fn spec_from_token(token: Seq<char>) -> Option<RelationOptionality> {
        if token == "optional"@ {
            Some(RelationOptionality::Optional)
        } else if token == "required"@ {
            Some(RelationOptionality::Required)
        } else {
            None
        }
    }

    /// Reads the optionality of a member.
    pub fn from_token(token: &str) -> (optionality: Option<RelationOptionality>)
        ensures
            optionality == Self::spec_from_token(token@),
    {
        if same_text(token, "optional") {
            Some(RelationOptionality::Optional)
        } else if same_text(token, "required") {
            Some(RelationOptionality::Required)
        } else {
            None
        }
    }
}

/// One participant of a relation.
#[derive(Debug, PartialEq, Eq)]
pub struct RelationMember {
    pub cardinality: RelationCardinality,
    pub optionality: RelationOptionality,
    pub entity: Ident,
}

/// What a [`RelationMember`] holds.
pub struct RelationMemberView {
    pub cardinality: RelationCardinality,
    pub optionality: RelationOptionality,
    pub entity: Seq<char>,
}

impl DeepView for RelationMember {
    type V = RelationMemberView;

    open spec fn deep_view(&self) -> RelationMemberView {
        RelationMemberView {
            cardinality: self.cardinality,
            optionality: self.optionality,
            entity: self.entity@,
        }
    }
}

impl Clone for RelationMember {
    fn clone(&self) -> (copy: Self)
        ensures
            copy == *self,
    {
        RelationMember {
            cardinality: self.cardinality,
            optionality: self.optionality,
            entity: self.entity.clone(),
        }
    }
}

impl RelationMemberView {
    /// The member that three words of a document stand for: cardinality,
    /// optionality and the name of the entity.
    pub open spec fn from_tokens(tokens: (Seq<char>, Seq<char>, Seq<char>)) -> Option<
        RelationMemberView,
    > {
        match (
            RelationCardinality::spec_from_token(tokens.0),
            RelationOptionality::spec_from_token(tokens.1),
        ) {
            (Some(cardinality), Some(optionality)) => Some(
                RelationMemberView { cardinality, optionality, entity: tokens.2 },
            ),
            _ => None,
        }
    }
}

impl RelationMember {
    /// Reads a member from the three words that a document gives for it.
    pub fn from_tokens(tokens: (String, String, String)) -> (member: Option<RelationMember>)
        ensures
            member.deep_view() == RelationMemberView::from_tokens(tokens.deep_view()),
    {
        let (cardinality_word, optionality_word, entity) = tokens;
        let cardinality = match RelationCardinality::from_token(cardinality_word.as_str()) {
            Some(cardinality) => cardinality,
            None => { return None; },
        };
        let optionality = match RelationOptionality::from_token(optionality_word.as_str()) {
            Some(optionality) => optionality,
            None => { return None; },
        };
        Some(RelationMember { cardinality, optionality, entity: Ident(entity) })
    }
}

/// The wish to fold a relation of two members into the table of one of
/// them, as a column of the given name that refers to the other.
#[derive(Debug, PartialEq, Eq)]
pub struct ForeignKey {
    pub attribute_name: Ident,
    pub relation: Ident,
}

/// What a [`ForeignKey`] holds.
pub struct ForeignKeyView {
    pub attribute_name: Seq<char>,
    pub relation: Seq<char>,
}

impl DeepView for ForeignKey {
    type V = ForeignKeyView;

    open spec fn deep_view(&self) -> ForeignKeyView {
        ForeignKeyView { attribute_name: self.attribute_name@, relation: self.relation@ }
    }
}

impl Clone for ForeignKey {
    fn clone(&self) -> (copy: Self)
        ensures
            copy == *self,
    {
        ForeignKey { attribute_name: self.attribute_name.clone(), relation: self.relation.clone() }
    }
}

impl ForeignKey {
    /// The foreign key that names the column first and the relation second.
    pub fn from_tokens(tokens: (String, String)) -> (foreign_key: ForeignKey)
        ensures
            foreign_key.attribute_name@ == tokens.0@,
            foreign_key.relation@ == tokens.1@,
    {
        let (attribute_name, relation) = tokens;
        ForeignKey { attribute_name: Ident(attribute_name), relation: Ident(relation) }
    }
}

/// One declaration of a document.
#[derive(Debug, PartialEq, Eq)]
pub enum Expr {
    /// An entity with its attributes.
    Entity(Ident, Vec<Attribute>),
    /// A relation with an optional label, its members and its attributes.
    Relation(Ident, Option<String>, Vec<RelationMember>, Vec<Attribute>),
    /// A table of the given name for an entity, with the relations to fold
    /// into it.
    EntityTable(Ident, Ident, Vec<ForeignKey>),
    /// A table of the given name for a relation.
    RelationTable(Ident, Ident),
}

/// What an [`Expr`] holds.
pub enum ExprView {
    Entity(Seq<char>, Seq<AttributeView>),
    Relation(Seq<char>, Option<Seq<char>>, Seq<RelationMemberView>, Seq<AttributeView>),
    EntityTable(Seq<char>, Seq<char>, Seq<ForeignKeyView>),
    RelationTable(Seq<char>, Seq<char>),
}

impl DeepView for Expr {
    type V = ExprView;

    open spec fn deep_view(&self) -> ExprView {
        match self {
            Expr::Entity(name, attributes) => ExprView::Entity(name@, attributes.deep_view()),
            Expr::Relation(name, label, members, attributes) => ExprView::Relation(
                name@,
                label.deep_view(),
                members.deep_view(),
                attributes.deep_view(),
            ),
            Expr::EntityTable(name, entity, foreign_keys) => ExprView::EntityTable(
                name@,
                entity@,
                foreign_keys.deep_view(),
            ),
            Expr::RelationTable(name, relation) => ExprView::RelationTable(name@, relation@),
        }
    }
}

/// A copy of a list of attributes.
pub fn clone_attributes(attributes: &Vec<Attribute>) -> (copy: Vec<Attribute>)
    ensures
        copy@ == attributes@,
{
    let copy = attributes.clone();
    assert(copy@ =~= attributes@);
    copy
}

/// A copy of a list of members.
pub fn clone_members(members: &Vec<RelationMember>) -> (copy: Vec<RelationMember>)
    ensures
        copy@ == members@,
{
    let copy = members.clone();
    assert(copy@ =~= members@);
    copy
}

/// A copy of a list of foreign keys.
pub fn clone_foreign_keys(foreign_keys: &Vec<ForeignKey>) -> (copy: Vec<ForeignKey>)
    ensures
        copy@ == foreign_keys@,
{
    let copy = foreign_keys.clone();
    assert(copy@ =~= foreign_keys@);
    copy
}

} // verus!

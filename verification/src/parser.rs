//! The way from a parsed document to declarations: the tree that the
//! reader of a document hands over, the records that are read from it, one
//! for each declaration and with the words of the document still as text,
//! and the step from those records to declarations.

use crate::ast::{
    Attribute, AttributeView, Expr, ExprView, ForeignKey, ForeignKeyView, Ident, RelationMember,
    RelationMemberView,
};
use crate::text::{joined, push_joined};
use crate::views::lemma_deep_view_push;
use vstd::prelude::*;
use vstd::string::StringExecFns;

verus! {

/// One declaration as the reader of a document found it.
#[derive(Debug, PartialEq, Eq)]
pub enum ParserExpr {
    /// The name of an entity, and for each attribute its kind (`id` or
    /// `attribute`), its name, and the name of its type where it has one.
    Entity(String, Vec<(String, String, Option<String>)>),
    /// The name of a relation, its label where it has one, for each member
    /// its cardinality, its optionality and the name of its entity, and
    /// the attributes as for an entity.
    Relation(
        String,
        Option<String>,
        Vec<(String, String, String)>,
        Vec<(String, String, Option<String>)>,
    ),
    /// The name of a table, the name of its entity, and for each foreign
    /// key the name of the column and the name of the relation.
    EntityTable(String, String, Vec<(String, String)>),
    /// The name of a table and the name of its relation.
    RelationTable(String, String),
}

/// What a [`ParserExpr`] holds.
pub enum ParserExprView {
    Entity(Seq<char>, Seq<(Seq<char>, Seq<char>, Option<Seq<char>>)>),
    Relation(
        Seq<char>,
        Option<Seq<char>>,
        Seq<(Seq<char>, Seq<char>, Seq<char>)>,
        Seq<(Seq<char>, Seq<char>, Option<Seq<char>>)>,
    ),
    EntityTable(Seq<char>, Seq<char>, Seq<(Seq<char>, Seq<char>)>),
    RelationTable(Seq<char>, Seq<char>),
}

impl DeepView for ParserExpr {
    type V = ParserExprView;

    open spec fn deep_view(&self) -> ParserExprView {
        match self {
            ParserExpr::Entity(name, attributes) => ParserExprView::Entity(
                name@,
                attributes.deep_view(),
            ),
            ParserExpr::Relation(name, label, members, attributes) => ParserExprView::Relation(
                name@,
                label.deep_view(),
                members.deep_view(),
                attributes.deep_view(),
            ),
            ParserExpr::EntityTable(name, entity, foreign_keys) => ParserExprView::EntityTable(
                name@,
                entity@,
                foreign_keys.deep_view(),
            ),
            ParserExpr::RelationTable(name, relation) => ParserExprView::RelationTable(
                name@,
                relation@,
            ),
        }
    }
}

/// Why a document gave no declarations.
#[derive(Debug, PartialEq, Eq)]
pub enum ConsumeError {
    /// The document does not follow the grammar; the reader's accounts of
    /// where and how.
    ERDParseError(Vec<String>),
    /// A record holds a word that the language does not have.
    UnknownParseError,
}

/// What a [`ConsumeError`] holds.
pub enum ConsumeErrorView {
    ERDParseError(Seq<Seq<char>>),
    UnknownParseError,
}

impl DeepView for ConsumeError {
    type V = ConsumeErrorView;

    open spec fn deep_view(&self) -> ConsumeErrorView {
        match self {
            ConsumeError::ERDParseError(accounts) => ConsumeErrorView::ERDParseError(
                accounts.deep_view(),
            ),
            ConsumeError::UnknownParseError => ConsumeErrorView::UnknownParseError,
        }
    }
}

impl ConsumeErrorView {
    /// The sentence that tells a reader of the failure.
    pub open spec fn message(self) -> Seq<char> {
        match self {
            ConsumeErrorView::ERDParseError(accounts) => "Error while parsing ERD:\n"@ + joined(
                accounts,
                "\n"@,
            ),
            ConsumeErrorView::UnknownParseError => "Unknown parse error, please report."@,
        }
    }
}

impl ConsumeError {
    /// The sentence that tells a reader of the failure.
    pub fn to_string(&self) -> (text: String)
        ensures
            text@ == self.deep_view().message(),
    {
        match self {
            ConsumeError::ERDParseError(accounts) => {
                let mut text = String::from_str("Error while parsing ERD:\n");
                push_joined(&mut text, accounts, "\n");
                text
            },
            ConsumeError::UnknownParseError => String::from_str(
                "Unknown parse error, please report.",
            ),
        }
    }
}

/// The attributes that the words of a record stand for; none where one of
/// them holds a word that the language does not have.
pub open spec fn attributes_read(tokens: Seq<(Seq<char>, Seq<char>, Option<Seq<char>>)>) -> Option<
    Seq<AttributeView>,
> {
    if forall|i: int| 0 <= i < tokens.len() ==> AttributeView::from_tokens(#[trigger] tokens[i]).is_some() {
        Some(
            tokens.map_values(
                |t: (Seq<char>, Seq<char>, Option<Seq<char>>)| AttributeView::from_tokens(t).unwrap(),
            ),
        )
    } else {
        None
    }
}

/// The members that the words of a record stand for; none where one of
/// them holds a word that the language does not have.
pub open spec fn members_read(tokens: Seq<(Seq<char>, Seq<char>, Seq<char>)>) -> Option<
    Seq<RelationMemberView>,
> {
    if forall|i: int|
        0 <= i < tokens.len() ==> RelationMemberView::from_tokens(#[trigger] tokens[i]).is_some() {
        Some(
            tokens.map_values(
                |t: (Seq<char>, Seq<char>, Seq<char>)| RelationMemberView::from_tokens(t).unwrap(),
            ),
        )
    } else {
        None
    }
}

/// The foreign keys that the words of a record stand for.
pub open spec fn foreign_keys_read(tokens: Seq<(Seq<char>, Seq<char>)>) -> Seq<ForeignKeyView> {
    tokens.map_values(
        |t: (Seq<char>, Seq<char>)| ForeignKeyView { attribute_name: t.0, relation: t.1 },
    )
}

impl ParserExprView {
    /// The declaration that the record stands for; none where the record
    /// holds a word that the language does not have.
    pub open spec fn to_expr(self) -> Option<ExprView> {
        match self {
            ParserExprView::Entity(name, attributes) => match attributes_read(attributes) {
                Some(attributes) => Some(ExprView::Entity(name, attributes)),
                None => None,
            },
            ParserExprView::Relation(name, label, members, attributes) => match (
                members_read(members),
                attributes_read(attributes),
            ) {
                (Some(members), Some(attributes)) => Some(
                    ExprView::Relation(name, label, members, attributes),
                ),
                _ => None,
            },
            ParserExprView::EntityTable(name, entity, foreign_keys) => Some(
                ExprView::EntityTable(name, entity, foreign_keys_read(foreign_keys)),
            ),
            ParserExprView::RelationTable(name, relation) => Some(
                ExprView::RelationTable(name, relation),
            ),
        }
    }
}

/// The declarations that a list of records stands for; none where a
/// record holds a word that the language does not have.
pub open spec fn declarations_of(records: Seq<ParserExprView>) -> Option<Seq<ExprView>> {
    if forall|i: int| 0 <= i < records.len() ==> (#[trigger] records[i]).to_expr().is_some() {
        Some(records.map_values(|r: ParserExprView| r.to_expr().unwrap()))
    } else {
        None
    }
}

/// Reads the attributes of a record.
fn read_attributes(tokens: &Vec<(String, String, Option<String>)>) -> (attributes: Option<
    Vec<Attribute>,
>)
    ensures
        attributes.deep_view() == attributes_read(tokens.deep_view()),
{
    let ghost words = tokens.deep_view();
    let ghost wanted = words.map_values(
        |t: (Seq<char>, Seq<char>, Option<Seq<char>>)| AttributeView::from_tokens(t).unwrap(),
    );
    let mut attributes: Vec<Attribute> = Vec::new();
    let mut i: usize = 0;
    while i < tokens.len()
        invariant
            i <= tokens.len(),
            words == tokens.deep_view(),
            wanted == words.map_values(
                |t: (Seq<char>, Seq<char>, Option<Seq<char>>)|
                    AttributeView::from_tokens(t).unwrap(),
            ),
            forall|j: int| 0 <= j < i ==> AttributeView::from_tokens(#[trigger] words[j]).is_some(),
            attributes.deep_view() == wanted.take(i as int),
        decreases tokens.len() - i,
    {
        let token = &tokens[i];
        assert(words[i as int] == token.deep_view());
        let type_word = match &token.2 {
            Some(word) => Some(word.clone()),
            None => None,
        };
        match Attribute::from_tokens((token.0.clone(), token.1.clone(), type_word)) {
            Some(attribute) => {
                let ghost before = attributes;
                attributes.push(attribute);
                proof {
                    lemma_deep_view_push(before, attributes, attribute);
                    assert(attributes.deep_view() =~= wanted.take(i + 1));
                }
            },
            None => {
                return None;
            },
        }
        i += 1;
    }
    assert(wanted.take(i as int) =~= wanted);
    Some(attributes)
}

/// Reads the members of a record.
fn read_members(tokens: &Vec<(String, String, String)>) -> (members: Option<Vec<RelationMember>>)
    ensures
        members.deep_view() == members_read(tokens.deep_view()),
{
    let ghost words = tokens.deep_view();
    let ghost wanted = words.map_values(
        |t: (Seq<char>, Seq<char>, Seq<char>)| RelationMemberView::from_tokens(t).unwrap(),
    );
    let mut members: Vec<RelationMember> = Vec::new();
    let mut i: usize = 0;
    while i < tokens.len()
        invariant
            i <= tokens.len(),
            words == tokens.deep_view(),
            wanted == words.map_values(
                |t: (Seq<char>, Seq<char>, Seq<char>)| RelationMemberView::from_tokens(t).unwrap(),
            ),
            forall|j: int|
                0 <= j < i ==> RelationMemberView::from_tokens(#[trigger] words[j]).is_some(),
            members.deep_view() == wanted.take(i as int),
        decreases tokens.len() - i,
    {
        let token = &tokens[i];
        assert(words[i as int] == token.deep_view());
        match RelationMember::from_tokens((token.0.clone(), token.1.clone(), token.2.clone())) {
            Some(member) => {
                let ghost before = members;
                members.push(member);
                proof {
                    lemma_deep_view_push(before, members, member);
                    assert(members.deep_view() =~= wanted.take(i + 1));
                }
            },
            None => {
                return None;
            },
        }
        i += 1;
    }
    assert(wanted.take(i as int) =~= wanted);
    Some(members)
}

/// Reads the foreign keys of a record.
fn read_foreign_keys(tokens: &Vec<(String, String)>) -> (foreign_keys: Vec<ForeignKey>)
    ensures
        foreign_keys.deep_view() == foreign_keys_read(tokens.deep_view()),
{
    let ghost wanted = foreign_keys_read(tokens.deep_view());
    let mut foreign_keys: Vec<ForeignKey> = Vec::new();
    let mut i: usize = 0;
    while i < tokens.len()
        invariant
            i <= tokens.len(),
            wanted == foreign_keys_read(tokens.deep_view()),
            foreign_keys.deep_view() == wanted.take(i as int),
        decreases tokens.len() - i,
    {
        let token = &tokens[i];
        assert(tokens.deep_view()[i as int] == token.deep_view());
        let ghost before = foreign_keys;
        let foreign_key = ForeignKey::from_tokens((token.0.clone(), token.1.clone()));
        foreign_keys.push(foreign_key);
        proof {
            lemma_deep_view_push(before, foreign_keys, foreign_key);
            assert(foreign_keys.deep_view() =~= wanted.take(i + 1));
        }
        i += 1;
    }
    assert(wanted.take(i as int) =~= wanted);
    foreign_keys
}

impl ParserExpr {
    /// The declaration that the record stands for; none where the record
    /// holds a word that the language does not have.
    pub fn to_expr(&self) -> (declaration: Option<Expr>)
        ensures
            declaration.deep_view() == self.deep_view().to_expr(),
    {
        match self {
            ParserExpr::Entity(name, attributes) => match read_attributes(attributes) {
                Some(attributes) => Some(Expr::Entity(Ident(name.clone()), attributes)),
                None => None,
            },
            ParserExpr::Relation(name, label, members, attributes) => {
                let members = match read_members(members) {
                    Some(members) => members,
                    None => { return None; },
                };
                let attributes = match read_attributes(attributes) {
                    Some(attributes) => attributes,
                    None => { return None; },
                };
                let label = match label {
                    Some(label) => Some(label.clone()),
                    None => None,
                };
                Some(Expr::Relation(Ident(name.clone()), label, members, attributes))
            },
            ParserExpr::EntityTable(name, entity, foreign_keys) => Some(
                Expr::EntityTable(
                    Ident(name.clone()),
                    Ident(entity.clone()),
                    read_foreign_keys(foreign_keys),
                ),
            ),
            ParserExpr::RelationTable(name, relation) => Some(
                Expr::RelationTable(Ident(name.clone()), Ident(relation.clone())),
            ),
        }
    }
}

/// The declarations that a list of records stands for. Where a record
/// holds a word that the language does not have, there are none, and the
/// failure is the unknown one.
pub fn read_declarations(records: &Vec<ParserExpr>) -> (declarations: Result<
    Vec<Expr>,
    ConsumeError,
>)
    ensures
        match declarations_of(records.deep_view()) {
            Some(wanted) => declarations.is_ok() && declarations.unwrap().deep_view() == wanted,
            None => declarations == Err::<Vec<Expr>, ConsumeError>(ConsumeError::UnknownParseError),
        },
{
    let ghost words = records.deep_view();
    let ghost wanted = words.map_values(|r: ParserExprView| r.to_expr().unwrap());
    let mut declarations: Vec<Expr> = Vec::new();
    let mut i: usize = 0;
    while i < records.len()
        invariant
            i <= records.len(),
            words == records.deep_view(),
            wanted == words.map_values(|r: ParserExprView| r.to_expr().unwrap()),
            forall|j: int| 0 <= j < i ==> (#[trigger] words[j]).to_expr().is_some(),
            declarations.deep_view() == wanted.take(i as int),
        decreases records.len() - i,
    {
        assert(words[i as int] == records[i as int].deep_view());
        match records[i].to_expr() {
            Some(declaration) => {
                let ghost before = declarations;
                declarations.push(declaration);
                proof {
                    lemma_deep_view_push(before, declarations, declaration);
                    assert(declarations.deep_view() =~= wanted.take(i + 1));
                }
            },
            None => {
                return Err(ConsumeError::UnknownParseError);
            },
        }
        i += 1;
    }
    assert(wanted.take(i as int) =~= wanted);
    Ok(declarations)
}

/// The kinds of node in the tree of a parsed document.
#[derive(Clone, Copy, Debug, PartialEq, Eq, Structural)]
pub enum Rule {
    /// One declaration; the node within it tells which.
    Expression,
    Entity,
    Relation,
    /// The label of a relation.
    RelationName,
    Member,
    Attribute,
    EntityTable,
    RelationTable,
    /// A foreign key of a table of an entity.
    Foreign,
    /// Any other node: a word, or the end of the document.
    Other,
}

/// A node in the tree of a parsed document: its kind, the text of the
/// document that it spans, and the nodes within it, in their order.
#[derive(Debug, PartialEq, Eq)]
pub struct SyntaxNode {
    pub rule: Rule,
    pub text: String,
    pub children: Vec<SyntaxNode>,
}

/// What `str::trim` of the standard library makes of a text: the text
/// without the white space at its two ends.
pub uninterp spec fn trimmed(text: Seq<char>) -> Seq<char>;

/// `str::trim` of the standard library: the part of the text that is left
/// when the white space at its two ends is taken away.
#[verifier::external_body]
fn trim(text: &str) -> (short: &str)
    ensures
        short@ == trimmed(text@),
{
    text.trim()
}

/// The texts of the nodes within a node, in their order.
pub open spec fn words(node: SyntaxNode) -> Seq<Seq<char>> {
    node.children@.map_values(|child: SyntaxNode| child.text@)
}

/// The three words of an attribute: the texts of the first two nodes
/// within its node, and that of the third where there is one. There are
/// none where the node holds fewer than two nodes.
pub open spec fn attribute_words(node: SyntaxNode) -> Option<
    (Seq<char>, Seq<char>, Option<Seq<char>>),
> {
    let w = words(node);
    if w.len() >= 3 {
        Some((w[0], w[1], Some(w[2])))
    } else if w.len() == 2 {
        Some((w[0], w[1], None))
    } else {
        None
    }
}

/// The three words of a member: the texts of the first three nodes within
/// its node.
pub open spec fn member_words(node: SyntaxNode) -> Option<(Seq<char>, Seq<char>, Seq<char>)> {
    let w = words(node);
    if w.len() >= 3 {
        Some((w[0], w[1], w[2]))
    } else {
        None
    }
}

/// The two words of a foreign key: the texts of the first two nodes within
/// its node.
pub open spec fn foreign_words(node: SyntaxNode) -> Option<(Seq<char>, Seq<char>)> {
    let w = words(node);
    if w.len() >= 2 {
        Some((w[0], w[1]))
    } else {
        None
    }
}

/// The words of the attributes among the first `n` of `nodes`, every one of
/// which is taken for an attribute; none where one of them lacks a word.
pub open spec fn attributes_words(nodes: Seq<SyntaxNode>, n: nat) -> Option<
    Seq<(Seq<char>, Seq<char>, Option<Seq<char>>)>,
>
    decreases n,
{
    if n == 0 {
        Some(Seq::empty())
    } else {
        match (attributes_words(nodes, (n - 1) as nat), attribute_words(nodes[n - 1])) {
            (Some(before), Some(last)) => Some(before.push(last)),
            _ => None,
        }
    }
}

/// The words of the members and of the attributes among the first `n` of
/// `nodes`, each kind in its order; none where one of the nodes is neither
/// a member nor an attribute, or lacks a word.
pub open spec fn relation_words(nodes: Seq<SyntaxNode>, n: nat) -> Option<
    (Seq<(Seq<char>, Seq<char>, Seq<char>)>, Seq<(Seq<char>, Seq<char>, Option<Seq<char>>)>),
>
    decreases n,
{
    if n == 0 {
        Some((Seq::empty(), Seq::empty()))
    } else {
        match relation_words(nodes, (n - 1) as nat) {
            Some((members, attributes)) => match nodes[n - 1].rule {
                Rule::Member => match member_words(nodes[n - 1]) {
                    Some(last) => Some((members.push(last), attributes)),
                    None => None,
                },
                Rule::Attribute => match attribute_words(nodes[n - 1]) {
                    Some(last) => Some((members, attributes.push(last))),
                    None => None,
                },
                _ => None,
            },
            None => None,
        }
    }
}

/// The words of the foreign keys among the first `n` of `nodes`; none
/// where one of the nodes is no foreign key, or lacks a word.
pub open spec fn foreign_keys_words(nodes: Seq<SyntaxNode>, n: nat) -> Option<
    Seq<(Seq<char>, Seq<char>)>,
>
    decreases n,
{
    if n == 0 {
        Some(Seq::empty())
    } else {
        match (foreign_keys_words(nodes, (n - 1) as nat), nodes[n - 1].rule, foreign_words(
            nodes[n - 1],
        )) {
            (Some(before), Rule::Foreign, Some(last)) => Some(before.push(last)),
            _ => None,
        }
    }
}

/// The record of an entity of the given name: `parts` are the nodes within
/// the node of the entity, the first of which bears the name; the others
/// are its attributes. There is none where `parts` is empty, or an
/// attribute lacks a word.
pub open spec fn entity_record(name: Seq<char>, parts: Seq<SyntaxNode>) -> Option<ParserExprView> {
    let rest = parts.skip(1);
    if parts.len() < 1 {
        None
    } else {
        match attributes_words(rest, rest.len()) {
            Some(attributes) => Some(ParserExprView::Entity(name, attributes)),
            None => None,
        }
    }
}

/// The record of a relation of the given name: `parts` are the nodes
/// within the node of the relation, the first of which bears the name. A
/// label may come next; members and attributes follow, in any order.
/// There is none where `parts` is empty, or what follows is neither a
/// member nor an attribute, or lacks a word.
pub open spec fn relation_record(name: Seq<char>, parts: Seq<SyntaxNode>) -> Option<
    ParserExprView,
> {
    let labelled = parts.len() >= 2 && parts[1].rule == Rule::RelationName;
    let rest = if labelled {
        parts.skip(2)
    } else {
        parts.skip(1)
    };
    if parts.len() < 1 {
        None
    } else {
        match relation_words(rest, rest.len()) {
            Some((members, attributes)) => Some(
                ParserExprView::Relation(
                    name,
                    if labelled {
                        Some(parts[1].text@)
                    } else {
                        None
                    },
                    members,
                    attributes,
                ),
            ),
            None => None,
        }
    }
}

/// The record of a table of an entity: `parts` are the nodes within the
/// node of the table, the first of which bears the name of the table and
/// the second that of the entity; the others are its foreign keys. There
/// is none where `parts` holds fewer than two nodes, or one of the others
/// is no foreign key, or lacks a word.
pub open spec fn entity_table_record(parts: Seq<SyntaxNode>) -> Option<ParserExprView> {
    let rest = parts.skip(2);
    if parts.len() < 2 {
        None
    } else {
        match foreign_keys_words(rest, rest.len()) {
            Some(foreign_keys) => Some(
                ParserExprView::EntityTable(parts[0].text@, parts[1].text@, foreign_keys),
            ),
            None => None,
        }
    }
}

/// The record that the node of a declaration stands for. The first node
/// within it tells the kind of declaration, and holds the parts: first the
/// name, which for an entity and for a relation is taken without the white
/// space at its ends; then, for a table, the name of what it holds; then
/// the attributes, members or foreign keys. There is no record where the
/// tree lacks a node that the declaration needs, or holds one of a kind
/// that has no place in it.
pub open spec fn record_of(expression: SyntaxNode) -> Option<ParserExprView> {
    if expression.children@.len() == 0 {
        None
    } else {
        let declared = expression.children@[0];
        let parts = declared.children@;
        match declared.rule {
            Rule::Entity => if parts.len() >= 1 {
                entity_record(trimmed(parts[0].text@), parts)
            } else {
                None
            },
            Rule::Relation => if parts.len() >= 1 {
                relation_record(trimmed(parts[0].text@), parts)
            } else {
                None
            },
            Rule::EntityTable => entity_table_record(parts),
            Rule::RelationTable => if parts.len() >= 2 {
                Some(ParserExprView::RelationTable(parts[0].text@, parts[1].text@))
            } else {
                None
            },
            _ => None,
        }
    }
}

/// The records of the declarations among the first `n` of `nodes`, in
/// their order; nodes of other kinds are passed over. There are none where
/// one of the declarations has no record.
pub open spec fn records_of(nodes: Seq<SyntaxNode>, n: nat) -> Option<Seq<ParserExprView>>
    decreases n,
{
    if n == 0 {
        Some(Seq::empty())
    } else {
        match records_of(nodes, (n - 1) as nat) {
            Some(before) => if nodes[n - 1].rule == Rule::Expression {
                match record_of(nodes[n - 1]) {
                    Some(last) => Some(before.push(last)),
                    None => None,
                }
            } else {
                Some(before)
            },
            None => None,
        }
    }
}

/// Reads the three words of an attribute.
fn read_attribute_words(node: &SyntaxNode) -> (found: Option<(String, String, Option<String>)>)
    ensures
        found.deep_view() == attribute_words(*node),
{
    if node.children.len() < 2 {
        return None;
    }
    let third = if node.children.len() >= 3 {
        Some(node.children[2].text.clone())
    } else {
        None
    };
    Some((node.children[0].text.clone(), node.children[1].text.clone(), third))
}

/// Reads the three words of a member.
fn read_member_words(node: &SyntaxNode) -> (found: Option<(String, String, String)>)
    ensures
        found.deep_view() == member_words(*node),
{
    if node.children.len() < 3 {
        return None;
    }
    Some(
        (
            node.children[0].text.clone(),
            node.children[1].text.clone(),
            node.children[2].text.clone(),
        ),
    )
}

/// Reads the two words of a foreign key.
fn read_foreign_words(node: &SyntaxNode) -> (found: Option<(String, String)>)
    ensures
        found.deep_view() == foreign_words(*node),
{
    if node.children.len() < 2 {
        return None;
    }
    Some((node.children[0].text.clone(), node.children[1].text.clone()))
}

/// The record of an entity of the given name, from the nodes within the
/// node of the entity.
pub fn read_entity(name: String, parts: &Vec<SyntaxNode>) -> (record: Option<ParserExpr>)
    ensures
        record.deep_view() == entity_record(name@, parts@),
{
    if parts.len() < 1 {
        return None;
    }
    let ghost rest = parts@.skip(1);
    let mut attributes: Vec<(String, String, Option<String>)> = Vec::new();
    let mut i: usize = 1;
    assert(attributes.deep_view() =~= Seq::<(Seq<char>, Seq<char>, Option<Seq<char>>)>::empty());
    while i < parts.len()
        invariant
            1 <= i <= parts.len(),
            rest == parts@.skip(1),
            attributes_words(rest, (i - 1) as nat) == Some(attributes.deep_view()),
        decreases parts.len() - i,
    {
        assert(rest[i - 1] == parts@[i as int]);
        match read_attribute_words(&parts[i]) {
            Some(found) => {
                let ghost before = attributes;
                attributes.push(found);
                proof {
                    lemma_deep_view_push(before, attributes, found);
                }
            },
            None => {
                proof {
                    lemma_attributes_words_stay_none(rest, i as nat, rest.len());
                }
                return None;
            },
        }
        i += 1;
    }
    Some(ParserExpr::Entity(name, attributes))
}

/// Once a node lacks a word, no longer row of nodes gives words.
proof fn lemma_attributes_words_stay_none(nodes: Seq<SyntaxNode>, n: nat, m: nat)
    requires
        n <= m,
        attributes_words(nodes, n).is_none(),
    ensures
        attributes_words(nodes, m).is_none(),
    decreases m,
{
    if n < m {
        lemma_attributes_words_stay_none(nodes, n, (m - 1) as nat);
    }
}

proof fn lemma_relation_words_stay_none(nodes: Seq<SyntaxNode>, n: nat, m: nat)
    requires
        n <= m,
        relation_words(nodes, n).is_none(),
    ensures
        relation_words(nodes, m).is_none(),
    decreases m,
{
    if n < m {
        lemma_relation_words_stay_none(nodes, n, (m - 1) as nat);
    }
}

proof fn lemma_foreign_keys_words_stay_none(nodes: Seq<SyntaxNode>, n: nat, m: nat)
    requires
        n <= m,
        foreign_keys_words(nodes, n).is_none(),
    ensures
        foreign_keys_words(nodes, m).is_none(),
    decreases m,
{
    if n < m {
        lemma_foreign_keys_words_stay_none(nodes, n, (m - 1) as nat);
    }
}

proof fn lemma_records_stay_none(nodes: Seq<SyntaxNode>, n: nat, m: nat)
    requires
        n <= m,
        records_of(nodes, n).is_none(),
    ensures
        records_of(nodes, m).is_none(),
    decreases m,
{
    if n < m {
        lemma_records_stay_none(nodes, n, (m - 1) as nat);
    }
}

/// The record of a relation of the given name, from the nodes within the
/// node of the relation.
pub fn read_relation(name: String, parts: &Vec<SyntaxNode>) -> (record: Option<ParserExpr>)
    ensures
        record.deep_view() == relation_record(name@, parts@),
{
    if parts.len() < 1 {
        return None;
    }
    let labelled = parts.len() >= 2 && parts[1].rule == Rule::RelationName;
    let start: usize = if labelled {
        2
    } else {
        1
    };
    let label = if labelled {
        Some(parts[1].text.clone())
    } else {
        None
    };
    let ghost rest = parts@.skip(start as int);
    let mut members: Vec<(String, String, String)> = Vec::new();
    let mut attributes: Vec<(String, String, Option<String>)> = Vec::new();
    let mut i: usize = start;
    assert(members.deep_view() =~= Seq::<(Seq<char>, Seq<char>, Seq<char>)>::empty());
    assert(attributes.deep_view() =~= Seq::<(Seq<char>, Seq<char>, Option<Seq<char>>)>::empty());
    while i < parts.len()
        invariant
            start <= i <= parts.len(),
            start == (if parts@.len() >= 2 && parts@[1].rule == Rule::RelationName {
                2int
            } else {
                1int
            }),
            rest == parts@.skip(start as int),
            relation_words(rest, (i - start) as nat) == Some(
                (members.deep_view(), attributes.deep_view()),
            ),
        decreases parts.len() - i,
    {
        assert(rest[i - start] == parts@[i as int]);
        let ghost here = (i - start + 1) as nat;
        match parts[i].rule {
            Rule::Member => match read_member_words(&parts[i]) {
                Some(found) => {
                    let ghost before = members;
                    members.push(found);
                    proof {
                        lemma_deep_view_push(before, members, found);
                    }
                },
                None => {
                    proof {
                        assert(relation_words(rest, here).is_none());
                        lemma_relation_words_stay_none(rest, here, rest.len());
                    }
                    return None;
                },
            },
            Rule::Attribute => match read_attribute_words(&parts[i]) {
                Some(found) => {
                    let ghost before = attributes;
                    attributes.push(found);
                    proof {
                        lemma_deep_view_push(before, attributes, found);
                    }
                },
                None => {
                    proof {
                        assert(relation_words(rest, here).is_none());
                        lemma_relation_words_stay_none(rest, here, rest.len());
                    }
                    return None;
                },
            },
            _ => {
                proof {
                    assert(relation_words(rest, here).is_none());
                    lemma_relation_words_stay_none(rest, here, rest.len());
                }
                return None;
            },
        }
        i += 1;
    }
    Some(ParserExpr::Relation(name, label, members, attributes))
}

/// The record of a table of an entity, from the nodes within the node of
/// the table.
pub fn read_entity_table(parts: &Vec<SyntaxNode>) -> (record: Option<ParserExpr>)
    ensures
        record.deep_view() == entity_table_record(parts@),
{
    if parts.len() < 2 {
        return None;
    }
    let ghost rest = parts@.skip(2);
    let mut foreign_keys: Vec<(String, String)> = Vec::new();
    let mut i: usize = 2;
    assert(foreign_keys.deep_view() =~= Seq::<(Seq<char>, Seq<char>)>::empty());
    while i < parts.len()
        invariant
            2 <= i <= parts.len(),
            rest == parts@.skip(2),
            foreign_keys_words(rest, (i - 2) as nat) == Some(foreign_keys.deep_view()),
        decreases parts.len() - i,
    {
        assert(rest[i - 2] == parts@[i as int]);
        let found = match parts[i].rule {
            Rule::Foreign => read_foreign_words(&parts[i]),
            _ => None,
        };
        match found {
            Some(found) => {
                let ghost before = foreign_keys;
                foreign_keys.push(found);
                proof {
                    lemma_deep_view_push(before, foreign_keys, found);
                }
            },
            None => {
                proof {
                    assert(foreign_keys_words(rest, (i - 1) as nat).is_none());
                    lemma_foreign_keys_words_stay_none(rest, (i - 1) as nat, rest.len());
                }
                return None;
            },
        }
        i += 1;
    }
    Some(ParserExpr::EntityTable(parts[0].text.clone(), parts[1].text.clone(), foreign_keys))
}

/// The record that the node of a declaration stands for.
pub fn consume_expression(expression: &SyntaxNode) -> (record: Option<ParserExpr>)
    ensures
        record.deep_view() == record_of(*expression),
{
    if expression.children.len() == 0 {
        return None;
    }
    let declared = &expression.children[0];
    let parts = &declared.children;
    match declared.rule {
        Rule::Entity => {
            if parts.len() < 1 {
                return None;
            }
            let name = String::from_str(trim(parts[0].text.as_str()));
            read_entity(name, parts)
        },
        Rule::Relation => {
            if parts.len() < 1 {
                return None;
            }
            let name = String::from_str(trim(parts[0].text.as_str()));
            read_relation(name, parts)
        },
        Rule::EntityTable => read_entity_table(parts),
        Rule::RelationTable => {
            if parts.len() < 2 {
                return None;
            }
            Some(ParserExpr::RelationTable(parts[0].text.clone(), parts[1].text.clone()))
        },
        _ => None,
    }
}

/// The records of the declarations of a parsed document, in their order:
/// `nodes` are the nodes at the top of its tree, of which those that are
/// no declarations are passed over. Where a declaration has no record,
/// there are none, and the failure is the unknown one.
pub fn consume_records(nodes: &Vec<SyntaxNode>) -> (records: Result<Vec<ParserExpr>, ConsumeError>)
    ensures
        match records_of(nodes@, nodes@.len()) {
            Some(wanted) => records.is_ok() && records.unwrap().deep_view() == wanted,
            None => records == Err::<Vec<ParserExpr>, ConsumeError>(
                ConsumeError::UnknownParseError,
            ),
        },
{
    let mut records: Vec<ParserExpr> = Vec::new();
    let mut i: usize = 0;
    assert(records.deep_view() =~= Seq::<ParserExprView>::empty());
    while i < nodes.len()
        invariant
            i <= nodes.len(),
            records_of(nodes@, i as nat) == Some(records.deep_view()),
        decreases nodes.len() - i,
    {
        if nodes[i].rule == Rule::Expression {
            match consume_expression(&nodes[i]) {
                Some(record) => {
                    let ghost before = records;
                    records.push(record);
                    proof {
                        lemma_deep_view_push(before, records, record);
                    }
                },
                None => {
                    proof {
                        lemma_records_stay_none(nodes@, (i + 1) as nat, nodes@.len());
                    }
                    return Err(ConsumeError::UnknownParseError);
                },
            }
        }
        i += 1;
    }
    Ok(records)
}

/// The declarations of a parsed document, in their order: the records of
/// the tree, each turned into its declaration. Where a declaration has no
/// record, or a record holds a word that the language does not have,
/// there are none, and the failure is the unknown one.
pub fn consume_expressions(nodes: &Vec<SyntaxNode>) -> (declarations: Result<
    Vec<Expr>,
    ConsumeError,
>)
    ensures
        match records_of(nodes@, nodes@.len()) {
            Some(records) => match declarations_of(records) {
                Some(wanted) => declarations.is_ok() && declarations.unwrap().deep_view()
                    == wanted,
                None => declarations == Err::<Vec<Expr>, ConsumeError>(
                    ConsumeError::UnknownParseError,
                ),
            },
            None => declarations == Err::<Vec<Expr>, ConsumeError>(
                ConsumeError::UnknownParseError,
            ),
        },
{
    match consume_records(nodes) {
        Ok(records) => read_declarations(&records),
        Err(error) => Err(error),
    }
}

} // verus!

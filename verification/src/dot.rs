//! Graph descriptions in the DOT language: the parts that a description is
//! made of, and the text of each.

use crate::text::{joined, push_joined};
use crate::views::lemma_deep_view_push;
use vstd::prelude::*;
use vstd::string::StringExecFns;

verus! {

/// Whether the edges of a graph have a direction.
#[derive(Clone, Copy, Debug, PartialEq, Eq, Structural)]
pub enum GraphType {
    Normal,
    Directional,
}

impl GraphType {
    /// The word that opens a graph of this kind.
    pub open spec fn text(self) -> Seq<char> {
        match self {
            GraphType::Normal => "graph"@,
            GraphType::Directional => "digraph"@,
        }
    }

    /// The word that opens a graph of this kind.
    pub fn to_string(&self) -> (text: String)
        ensures
            text@ == self.text(),
    {
        match self {
            GraphType::Normal => String::from_str("graph"),
            GraphType::Directional => String::from_str("digraph"),
        }
    }
}

/// Whether an edge has a direction.
#[derive(Clone, Copy, Debug, PartialEq, Eq, Structural)]
pub enum EdgeType {
    Normal,
    Directional,
}

impl EdgeType {
    /// The sign of an edge of this kind.
    pub open spec fn text(self) -> Seq<char> {
        match self {
            EdgeType::Normal => "--"@,
            EdgeType::Directional => "->"@,
        }
    }

    /// The sign of an edge of this kind.
    pub fn to_string(&self) -> (text: String)
        ensures
            text@ == self.text(),
    {
        match self {
            EdgeType::Normal => String::from_str("--"),
            EdgeType::Directional => String::from_str("->"),
        }
    }
}

/// What the attributes of an attribute statement apply to.
#[derive(Clone, Copy, Debug, PartialEq, Eq, Structural)]
pub enum AttributeStatementType {
    Graph,
    Node,
    Edge,
}

impl AttributeStatementType {
    /// The word that opens an attribute statement of this kind.
    pub open spec fn text(self) -> Seq<char> {
        match self {
            AttributeStatementType::Graph => "graph"@,
            AttributeStatementType::Node => "node"@,
            AttributeStatementType::Edge => "edge"@,
        }
    }

    /// The word that opens an attribute statement of this kind.
    pub fn to_string(&self) -> (text: String)
        ensures
            text@ == self.text(),
    {
        match self {
            AttributeStatementType::Graph => String::from_str("graph"),
            AttributeStatementType::Node => String::from_str("node"),
            AttributeStatementType::Edge => String::from_str("edge"),
        }
    }
}

/// One attribute: a key and its value.
#[derive(Debug, PartialEq, Eq)]
pub struct AListItem {
    pub key: String,
    pub value: String,
}

/// What an [`AListItem`] holds.
pub struct AListItemView {
    pub key: Seq<char>,
    pub value: Seq<char>,
}

impl DeepView for AListItem {
    type V = AListItemView;

    open spec fn deep_view(&self) -> AListItemView {
        AListItemView { key: self.key@, value: self.value@ }
    }
}

impl Clone for AListItem {
    fn clone(&self) -> (copy: Self)
        ensures
            copy == *self,
    {
        AListItem { key: self.key.clone(), value: self.value.clone() }
    }
}

impl AListItemView {
    /// The key, an equals sign and the value.
    pub open spec fn text(self) -> Seq<char> {
        self.key + "="@ + self.value
    }
}

impl AListItem {
    /// The attribute with the given key and value.
    pub fn new(key: &str, value: String) -> (item: AListItem)
        ensures
            item.deep_view() == (AListItemView { key: key@, value: value@ }),
    {
        AListItem { key: String::from_str(key), value }
    }

    /// The key, an equals sign and the value.
    pub fn to_string(&self) -> (text: String)
        ensures
            text@ == self.deep_view().text(),
    {
        let mut text = self.key.clone();
        text.append("=");
        text.append(self.value.as_str());
        text
    }
}

/// Attributes in a row.
#[derive(Debug, PartialEq, Eq)]
pub struct AList(pub Vec<AListItem>);

impl DeepView for AList {
    type V = Seq<AListItemView>;

    open spec fn deep_view(&self) -> Seq<AListItemView> {
        self.0.deep_view()
    }
}

/// The texts of the attributes, with a semicolon and a blank between each
/// two.
pub open spec fn alist_text(items: Seq<AListItemView>) -> Seq<char> {
    joined(items.map_values(|item: AListItemView| item.text()), "; "@)
}

impl AList {
    /// The texts of the attributes, with a semicolon and a blank between
    /// each two.
    pub fn to_string(&self) -> (text: String)
        ensures
            text@ == alist_text(self.deep_view()),
    {
        let ghost wanted = self.deep_view().map_values(|item: AListItemView| item.text());
        let mut texts: Vec<String> = Vec::new();
        let mut i: usize = 0;
        while i < self.0.len()
            invariant
                i <= self.0.len(),
                wanted == self.deep_view().map_values(|item: AListItemView| item.text()),
                texts.deep_view() == wanted.take(i as int),
            decreases self.0.len() - i,
        {
            let ghost before = texts;
            let text = self.0[i].to_string();
            texts.push(text);
            proof {
                lemma_deep_view_push(before, texts, text);
                assert(texts.deep_view() =~= wanted.take(i + 1));
            }
            i += 1;
        }
        assert(wanted.take(i as int) =~= wanted);
        let mut text = String::new();
        push_joined(&mut text, &texts, "; ");
        assert(text@ =~= alist_text(self.deep_view()));
        text
    }
}

/// Attributes between square brackets, and more such lists after them.
#[derive(Debug, PartialEq, Eq)]
pub struct AttributeList {
    pub content: AList,
    pub tail: Box<Option<AttributeList>>,
}

/// What an [`AttributeList`] holds.
pub struct AttributeListView {
    pub content: Seq<AListItemView>,
    pub tail: Option<Box<AttributeListView>>,
}

impl DeepView for AttributeList {
    type V = AttributeListView;

    open spec fn deep_view(&self) -> AttributeListView
        decreases self,
    {
        AttributeListView {
            content: self.content.deep_view(),
            tail: match *self.tail {
                Some(tail) => Some(Box::new(tail.deep_view())),
                None => None,
            },
        }
    }
}

impl AttributeListView {
    /// The attributes between square brackets; where more lists follow, a
    /// blank and their text.
    pub open spec fn text(self) -> Seq<char>
        decreases self,
    {
        "["@ + alist_text(self.content) + "]"@ + match self.tail {
            Some(tail) => " "@ + tail.text(),
            None => Seq::empty(),
        }
    }
}

impl AttributeList {
    /// The one list that holds the given attributes.
    pub fn single(items: Vec<AListItem>) -> (list: AttributeList)
        ensures
            list.deep_view() == (AttributeListView { content: items.deep_view(), tail: None }),
    {
        AttributeList { content: AList(items), tail: Box::new(None) }
    }

    /// The attributes between square brackets; where more lists follow, a
    /// blank and their text.
    pub fn to_string(&self) -> (text: String)
        ensures
            text@ == self.deep_view().text(),
        decreases self,
    {
        let mut text = String::from_str("[");
        text.append(self.content.to_string().as_str());
        text.append("]");
        match &*self.tail {
            Some(tail) => {
                text.append(" ");
                text.append(tail.to_string().as_str());
            },
            None => {},
        }
        assert(text@ =~= self.deep_view().text());
        text
    }
}

/// A node with its attributes.
#[derive(Debug, PartialEq, Eq)]
pub struct NodeStatement {
    pub node: String,
    pub attributes: Option<AttributeList>,
}

/// What a [`NodeStatement`] holds.
pub struct NodeStatementView {
    pub node: Seq<char>,
    pub attributes: Option<AttributeListView>,
}

impl DeepView for NodeStatement {
    type V = NodeStatementView;

    open spec fn deep_view(&self) -> NodeStatementView {
        NodeStatementView { node: self.node@, attributes: self.attributes.deep_view() }
    }
}

impl NodeStatementView {
    /// The name of the node; where it has attributes, a blank and their
    /// text.
    pub open spec fn text(self) -> Seq<char> {
        match self.attributes {
            Some(attributes) => self.node + " "@ + attributes.text(),
            None => self.node,
        }
    }
}

impl NodeStatement {
    /// The name of the node; where it has attributes, a blank and their
    /// text.
    pub fn to_string(&self) -> (text: String)
        ensures
            text@ == self.deep_view().text(),
    {
        let mut text = self.node.clone();
        match &self.attributes {
            Some(attributes) => {
                text.append(" ");
                text.append(attributes.to_string().as_str());
            },
            None => {},
        }
        text
    }
}

/// The right side of an edge: the sign of the edge, the node that it
/// reaches, and the edges that go on from there.
#[derive(Debug, PartialEq, Eq)]
pub struct EdgeRHS {
    pub kind: EdgeType,
    pub id: String,
    pub right: Box<Option<EdgeRHS>>,
}

/// What an [`EdgeRHS`] holds.
pub struct EdgeRHSView {
    pub kind: EdgeType,
    pub id: Seq<char>,
    pub right: Option<Box<EdgeRHSView>>,
}

impl DeepView for EdgeRHS {
    type V = EdgeRHSView;

    open spec fn deep_view(&self) -> EdgeRHSView
        decreases self,
    {
        EdgeRHSView {
            kind: self.kind,
            id: self.id@,
            right: match *self.right {
                Some(right) => Some(Box::new(right.deep_view())),
                None => None,
            },
        }
    }
}

impl EdgeRHSView {
    /// The sign, a blank and the node; where the edge goes on, a blank and
    /// the text of the rest.
    pub open spec fn text(self) -> Seq<char>
        decreases self,
    {
        self.kind.text() + " "@ + self.id + match self.right {
            Some(right) => " "@ + right.text(),
            None => Seq::empty(),
        }
    }
}

impl EdgeRHS {
    /// The right side that reaches one node by an edge without direction.
    pub fn to_node(id: String) -> (right: EdgeRHS)
        ensures
            right.deep_view() == (EdgeRHSView { kind: EdgeType::Normal, id: id@, right: None }),
    {
        EdgeRHS { kind: EdgeType::Normal, id, right: Box::new(None) }
    }

    /// The sign, a blank and the node; where the edge goes on, a blank and
    /// the text of the rest.
    pub fn to_string(&self) -> (text: String)
        ensures
            text@ == self.deep_view().text(),
        decreases self,
    {
        let mut text = self.kind.to_string();
        text.append(" ");
        text.append(self.id.as_str());
        match &*self.right {
            Some(right) => {
                text.append(" ");
                text.append(right.to_string().as_str());
            },
            None => {},
        }
        assert(text@ =~= self.deep_view().text());
        text
    }
}

/// An edge with its attributes.
#[derive(Debug, PartialEq, Eq)]
pub struct EdgeStatement {
    pub left: String,
    pub right: EdgeRHS,
    pub attributes: Option<AttributeList>,
}

/// What an [`EdgeStatement`] holds.
pub struct EdgeStatementView {
    pub left: Seq<char>,
    pub right: EdgeRHSView,
    pub attributes: Option<AttributeListView>,
}

impl DeepView for EdgeStatement {
    type V = EdgeStatementView;

    open spec fn deep_view(&self) -> EdgeStatementView {
        EdgeStatementView {
            left: self.left@,
            right: self.right.deep_view(),
            attributes: self.attributes.deep_view(),
        }
    }
}

impl EdgeStatementView {
    /// The node on the left, a blank and the right side; where the edge
    /// has attributes, a blank and their text.
    pub open spec fn text(self) -> Seq<char> {
        match self.attributes {
            Some(attributes) => self.left + " "@ + self.right.text() + " "@ + attributes.text(),
            None => self.left + " "@ + self.right.text(),
        }
    }
}

impl EdgeStatement {
    /// The node on the left, a blank and the right side; where the edge
    /// has attributes, a blank and their text.
    pub fn to_string(&self) -> (text: String)
        ensures
            text@ == self.deep_view().text(),
    {
        let mut text = self.left.clone();
        text.append(" ");
        text.append(self.right.to_string().as_str());
        match &self.attributes {
            Some(attributes) => {
                text.append(" ");
                text.append(attributes.to_string().as_str());
            },
            None => {},
        }
        assert(text@ =~= self.deep_view().text());
        text
    }
}

/// Attributes for the graph, for all nodes or for all edges.
#[derive(Debug, PartialEq, Eq)]
pub struct AttributeStatement {
    pub kind: AttributeStatementType,
    pub attributes: AttributeList,
}

/// What an [`AttributeStatement`] holds.
pub struct AttributeStatementView {
    pub kind: AttributeStatementType,
    pub attributes: AttributeListView,
}

impl DeepView for AttributeStatement {
    type V = AttributeStatementView;

    open spec fn deep_view(&self) -> AttributeStatementView {
        AttributeStatementView { kind: self.kind, attributes: self.attributes.deep_view() }
    }
}

impl AttributeStatementView {
    /// The word for what the attributes apply to, a blank and their text.
    pub open spec fn text(self) -> Seq<char> {
        self.kind.text() + " "@ + self.attributes.text()
    }
}

impl AttributeStatement {
    /// The word for what the attributes apply to, a blank and their text.
    pub fn to_string(&self) -> (text: String)
        ensures
            text@ == self.deep_view().text(),
    {
        let mut text = self.kind.to_string();
        text.append(" ");
        text.append(self.attributes.to_string().as_str());
        text
    }
}

/// One statement of a graph.
#[derive(Debug, PartialEq, Eq)]
pub enum Statement {
    Node(NodeStatement),
    Edge(EdgeStatement),
    Attribute(AttributeStatement),
    /// A setting of the graph: a key and its value.
    ID(String, String),
    /// A graph within the graph. It has no text yet.
    Subgraph,
}

/// What a [`Statement`] holds.
pub enum StatementView {
    Node(NodeStatementView),
    Edge(EdgeStatementView),
    Attribute(AttributeStatementView),
    ID(Seq<char>, Seq<char>),
    Subgraph,
}

impl DeepView for Statement {
    type V = StatementView;

    open spec fn deep_view(&self) -> StatementView {
        match self {
            Statement::Node(statement) => StatementView::Node(statement.deep_view()),
            Statement::Edge(statement) => StatementView::Edge(statement.deep_view()),
            Statement::Attribute(statement) => StatementView::Attribute(statement.deep_view()),
            Statement::ID(key, value) => StatementView::ID(key@, value@),
            Statement::Subgraph => StatementView::Subgraph,
        }
    }
}

impl StatementView {
    /// The text of the statement; of a setting, the key, an equals sign
    /// and the value; of a graph within the graph, nothing.
    pub open spec fn text(self) -> Seq<char> {
        match self {
            StatementView::Node(statement) => statement.text(),
            StatementView::Edge(statement) => statement.text(),
            StatementView::Attribute(statement) => statement.text(),
            StatementView::ID(key, value) => key + "="@ + value,
            StatementView::Subgraph => Seq::empty(),
        }
    }
}

impl Statement {
    /// The text of the statement.
    pub fn to_string(&self) -> (text: String)
        ensures
            text@ == self.deep_view().text(),
    {
        match self {
            Statement::Node(statement) => statement.to_string(),
            Statement::Edge(statement) => statement.to_string(),
            Statement::Attribute(statement) => statement.to_string(),
            Statement::ID(key, value) => {
                let mut text = key.clone();
                text.append("=");
                text.append(value.as_str());
                text
            },
            Statement::Subgraph => String::new(),
        }
    }
}

/// A graph description.
#[derive(Debug, PartialEq, Eq)]
pub struct Graph {
    pub strict: bool,
    pub kind: GraphType,
    pub id: Option<String>,
    pub statements: Vec<Statement>,
}

/// What a [`Graph`] holds.
pub struct GraphView {
    pub strict: bool,
    pub kind: GraphType,
    pub id: Option<Seq<char>>,
    pub statements: Seq<StatementView>,
}

impl DeepView for Graph {
    type V = GraphView;

    open spec fn deep_view(&self) -> GraphView {
        GraphView {
            strict: self.strict,
            kind: self.kind,
            id: self.id.deep_view(),
            statements: self.statements.deep_view(),
        }
    }
}

impl GraphView {
    /// The texts of the first `n` statements, each followed by a line
    /// break.
    pub open spec fn statement_lines(self, n: nat) -> Seq<char>
        decreases n,
    {
        if n == 0 {
            Seq::empty()
        } else {
            self.statement_lines((n - 1) as nat) + self.statements[n - 1].text() + "\n"@
        }
    }

    /// What stands before the statements: `strict` and a blank for a strict
    /// graph, the word for the kind of graph and a blank, the name of the
    /// graph and a blank where it has one, and an opening brace with a
    /// line break.
    pub open spec fn head(self) -> Seq<char> {
        (if self.strict {
            "strict "@
        } else {
            Seq::empty()
        }) + self.kind.text() + " "@ + (match self.id {
            Some(id) => id + " "@,
            None => Seq::empty(),
        }) + "{\n"@
    }

    /// The description as text: the head, a line for each statement, and
    /// a closing brace.
    pub open spec fn text(self) -> Seq<char> {
        self.head() + self.statement_lines(self.statements.len()) + "}"@
    }
}

impl Graph {
    /// The description as text.
    pub fn to_string(&self) -> (text: String)
        ensures
            text@ == self.deep_view().text(),
    {
        let ghost view = self.deep_view();
        let mut text = String::new();
        if self.strict {
            text.append("strict ");
        }
        text.append(self.kind.to_string().as_str());
        text.append(" ");
        match &self.id {
            Some(id) => {
                text.append(id.as_str());
                text.append(" ");
            },
            None => {},
        }
        text.append("{\n");
        assert(text@ =~= view.head());
        let mut i: usize = 0;
        assert(text@ =~= view.head() + view.statement_lines(0));
        while i < self.statements.len()
            invariant
                i <= self.statements.len(),
                view == self.deep_view(),
                text@ == view.head() + view.statement_lines(i as nat),
            decreases self.statements.len() - i,
        {
            assert(view.statements[i as int] == self.statements[i as int].deep_view());
            text.append(self.statements[i].to_string().as_str());
            text.append("\n");
            assert(text@ =~= view.head() + view.statement_lines((i + 1) as nat));
            i += 1;
        }
        text.append("}");
        text
    }
}

} // verus!

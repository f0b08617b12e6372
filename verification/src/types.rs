//! The executable data types: events, tree nodes and errors, each with a
//! view onto its ghost model.

use vstd::prelude::*;

use crate::model::AttrModel;
use crate::model::ElemModel;
use crate::model::EndModel;
use crate::model::ErrorModel;
use crate::model::EventModel;
use crate::model::NodeModel;
use crate::model::StartModel;
use crate::prefix_table::PrefixTable;

verus! {

/// What an optional namespace holds, as the specifications see it.
pub open spec fn opt_str_view(o: Option<String>) -> Option<Seq<char>> {
    match o {
        Some(s) => Some(s@),
        None => None,
    }
}

/// The models of a sequence of attributes, in order.
pub open spec fn attrs_view(s: Seq<Attribute>) -> Seq<AttrModel> {
    Seq::new(s.len(), |i: int| s[i]@)
}

/// An attribute of an element: local name, optional namespace, value.
#[derive(Debug, Clone, PartialEq)]
pub struct Attribute {
    pub name: String,
    pub ns: Option<String>,
    pub value: String,
}

impl View for Attribute {
    type V = AttrModel;

    open spec fn view(&self) -> AttrModel {
        AttrModel { name: self.name@, ns: opt_str_view(self.ns), value: self.value@ }
    }
}

/// A finished node of the document tree.
#[derive(Debug, PartialEq)]
pub enum Xml {
    ElementNode(Element),
    CharacterNode(String),
    CDATANode(String),
    CommentNode(String),
    PINode(String),
}

/// An element of the document tree: name, optional namespace, the default
/// namespace resolved at its scope, its own snapshot of the prefix table,
/// its attributes, and its children in document order.
#[derive(Debug, PartialEq)]
pub struct Element {
    pub name: String,
    pub ns: Option<String>,
    pub default_ns: Option<String>,
    pub prefixes: PrefixTable,
    pub attributes: Vec<Attribute>,
    pub children: Vec<Xml>,
}

impl Xml {
    /// The ghost model of this node.
    pub open spec fn model(self) -> NodeModel
        decreases self,
    {
        match self {
            Xml::ElementNode(e) => NodeModel::Element(e.model()),
            Xml::CharacterNode(s) => NodeModel::Characters(s@),
            Xml::CDATANode(s) => NodeModel::Cdata(s@),
            Xml::CommentNode(s) => NodeModel::Comment(s@),
            Xml::PINode(s) => NodeModel::Pi(s@),
        }
    }
}

/// The models of a sequence of tree nodes, in order.
pub open spec fn children_view(s: Seq<Xml>) -> Seq<NodeModel>
    decreases s,
{
    if s.len() == 0 {
        Seq::empty()
    } else {
        children_view(s.drop_last()).push(s.last().model())
    }
}

/// `children_view` maps the sequence node by node.
pub proof fn lemma_children_view(s: Seq<Xml>)
    ensures
        children_view(s).len() == s.len(),
        forall|i: int| 0 <= i < s.len() ==> children_view(s)[i] == s[i].model(),
    decreases s.len(),
{
    if s.len() > 0 {
        lemma_children_view(s.drop_last());
    }
}

impl Element {
    /// The ghost model of this element and of everything below it.
    pub open spec fn model(self) -> ElemModel
        decreases self,
    {
        ElemModel {
            name: self.name@,
            ns: opt_str_view(self.ns),
            default_ns: opt_str_view(self.default_ns),
            prefixes: self.prefixes@,
            attributes: attrs_view(self.attributes@),
            children: children_view(self.children@),
        }
    }
}

impl View for Xml {
    type V = NodeModel;

    open spec fn view(&self) -> NodeModel {
        (*self).model()
    }
}

impl View for Element {
    type V = ElemModel;

    open spec fn view(&self) -> ElemModel {
        (*self).model()
    }
}

/// An element-start marker: name, optional namespace, the prefix the source
/// spelled (unused by the builder), and the attributes in source order.
#[derive(Debug, Clone, PartialEq)]
pub struct StartTag {
    pub name: String,
    pub ns: Option<String>,
    pub prefix: Option<String>,
    pub attributes: Vec<Attribute>,
}

impl View for StartTag {
    type V = StartModel;

    open spec fn view(&self) -> StartModel {
        StartModel {
            name: self.name@,
            ns: opt_str_view(self.ns),
            prefix: opt_str_view(self.prefix),
            attributes: attrs_view(self.attributes@),
        }
    }
}

/// An element-end marker.
#[derive(Debug, Clone, PartialEq)]
pub struct EndTag {
    pub name: String,
    pub ns: Option<String>,
    pub prefix: Option<String>,
}

impl View for EndTag {
    type V = EndModel;

    open spec fn view(&self) -> EndModel {
        EndModel { name: self.name@, ns: opt_str_view(self.ns), prefix: opt_str_view(self.prefix) }
    }
}

/// One unit of parsed structure, as an external tokenizer produces it.
#[derive(Debug, Clone, PartialEq)]
pub enum Event {
    /// A processing instruction's content.
    PI(String),
    ElementStart(StartTag),
    ElementEnd(EndTag),
    /// Character data.
    Characters(String),
    /// A CDATA section's content.
    CDATA(String),
    /// A comment's content.
    Comment(String),
}

impl View for Event {
    type V = EventModel;

    open spec fn view(&self) -> EventModel {
        match self {
            Event::PI(s) => EventModel::Pi(s@),
            Event::ElementStart(st) => EventModel::Start(st@),
            Event::ElementEnd(et) => EventModel::End(et@),
            Event::Characters(s) => EventModel::Characters(s@),
            Event::CDATA(s) => EventModel::Cdata(s@),
            Event::Comment(s) => EventModel::Comment(s@),
        }
    }
}

/// A failure reported by the external tokenizer that feeds the builder.
/// The builder never looks inside one; it only wraps and forwards it.
#[derive(Debug, Clone, PartialEq)]
pub struct ParserError {
    pub msg: String,
}

impl View for ParserError {
    type V = Seq<char>;

    open spec fn view(&self) -> Seq<char> {
        self.msg@
    }
}

/// The errors encountered while building an `Element`.
#[derive(Debug, Clone, PartialEq)]
pub enum BuilderError {
    /// An upstream tokenizer failure, passed through unchanged.
    Parser(ParserError),
    /// Markers were improperly nested: an end with no open element, or one
    /// whose name or namespace does not match the innermost open element.
    ImproperNesting,
    /// No element was found.
    NoElement,
}

impl View for BuilderError {
    type V = ErrorModel;

    open spec fn view(&self) -> ErrorModel {
        match self {
            BuilderError::Parser(pe) => ErrorModel::Upstream(pe@),
            BuilderError::ImproperNesting => ErrorModel::ImproperNesting,
            BuilderError::NoElement => ErrorModel::NoElement,
        }
    }
}

impl From<ParserError> for BuilderError {
    /// Wraps an upstream tokenizer failure.
    fn from(err: ParserError) -> (r: BuilderError) {
        BuilderError::Parser(err)
    }
}

impl vstd::std_specs::convert::FromSpecImpl<ParserError> for BuilderError {
    open spec fn obeys_from_spec() -> bool {
        true
    }

    open spec fn from_spec(err: ParserError) -> BuilderError {
        BuilderError::Parser(err)
    }
}

impl BuilderError {
    /// A short description of the error; an upstream failure hands back its
    /// own message.
    pub fn description(&self) -> (r: String)
        ensures
            match self@ {
                ErrorModel::Upstream(msg) => r@ == msg,
                ErrorModel::ImproperNesting => r@ == "Elements not properly nested"@,
                ErrorModel::NoElement => r@ == "No elements found"@,
            },
    {
        match self {
            BuilderError::Parser(pe) => pe.msg.clone(),
            BuilderError::ImproperNesting => "Elements not properly nested".to_owned(),
            BuilderError::NoElement => "No elements found".to_owned(),
        }
    }
}

/// String equality, decided as equality of the character sequences.
pub fn str_eq(a: &str, b: &str) -> (r: bool)
    ensures
        r == (a@ == b@),
{
    let aa: String = a.to_owned();
    let bb: String = b.to_owned();
    aa == bb
}

/// Equality of optional strings, as equality of their views.
pub fn opt_string_eq(a: &Option<String>, b: &Option<String>) -> (r: bool)
    ensures
        r == (opt_str_view(*a) == opt_str_view(*b)),
{
    match a {
        Some(x) => match b {
            Some(y) => *x == *y,
            None => false,
        },
        None => b.is_none(),
    }
}

/// A copy of an optional string, equal to the original.
pub fn clone_opt_string(o: &Option<String>) -> (r: Option<String>)
    ensures
        r == *o,
{
    match o {
        Some(s) => Some(s.clone()),
        None => None,
    }
}

} // verus!

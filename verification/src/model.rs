//! The mathematical model of the builder: ghost counterparts of the data
//! types and a pure transition function, `step_event`, that the executable
//! `ElementBuilder` is proved to follow event by event.

use vstd::prelude::*;

verus! {

/// The namespace URI that carries the two built-in attributes of XML itself.
pub open spec fn xml_namespace() -> Seq<char> {
    "http://www.w3.org/XML/1998/namespace"@
}

/// The namespace URI that marks an attribute as a prefix declaration.
pub open spec fn xmlns_namespace() -> Seq<char> {
    "http://www.w3.org/2000/xmlns/"@
}

/// The local name of an attribute that sets the default namespace.
pub open spec fn xmlns_attr_name() -> Seq<char> {
    "xmlns"@
}

/// An attribute: local name, optional namespace, value.
pub struct AttrModel {
    pub name: Seq<char>,
    pub ns: Option<Seq<char>>,
    pub value: Seq<char>,
}

/// A finished node of the document tree.
pub enum NodeModel {
    Element(ElemModel),
    Characters(Seq<char>),
    Cdata(Seq<char>),
    Comment(Seq<char>),
    Pi(Seq<char>),
}

/// A finished or still-open element.
#[verifier::ext_equal]
pub struct ElemModel {
    pub name: Seq<char>,
    pub ns: Option<Seq<char>>,
    /// The default namespace in force at this element's scope.
    pub default_ns: Option<Seq<char>>,
    /// This element's own snapshot of the prefix table, keyed by namespace URI.
    pub prefixes: Map<Seq<char>, Seq<char>>,
    pub attributes: Seq<AttrModel>,
    pub children: Seq<NodeModel>,
}

/// An element-start marker.
#[verifier::ext_equal]
pub struct StartModel {
    pub name: Seq<char>,
    pub ns: Option<Seq<char>>,
    pub prefix: Option<Seq<char>>,
    pub attributes: Seq<AttrModel>,
}

/// An element-end marker.
#[verifier::ext_equal]
pub struct EndModel {
    pub name: Seq<char>,
    pub ns: Option<Seq<char>>,
    pub prefix: Option<Seq<char>>,
}

/// One unit of parsed structure handed to the builder.
pub enum EventModel {
    Pi(Seq<char>),
    Start(StartModel),
    End(EndModel),
    Characters(Seq<char>),
    Cdata(Seq<char>),
    Comment(Seq<char>),
}

/// The ways processing an event can fail.
pub enum ErrorModel {
    /// An upstream tokenizer failure, wrapped and passed through.
    Upstream(Seq<char>),
    ImproperNesting,
    NoElement,
}

/// What one processing call reports.
pub enum OutcomeModel {
    /// No element completed yet.
    Pending,
    /// The outermost element closed; this is the finished root.
    Completed(ElemModel),
    Failed(ErrorModel),
}

/// The builder's whole state.
#[verifier::ext_equal]
pub struct BuilderModel {
    /// Ancestors currently being assembled, innermost last.
    pub stack: Seq<ElemModel>,
    /// One optional default-namespace URI per open scope.
    pub default_ns: Seq<Option<Seq<char>>>,
    /// The persistent table mapping namespace URIs to prefixes.
    pub prefixes: Map<Seq<char>, Seq<char>>,
}

/// Whether an attribute sets the default namespace of its scope.
pub open spec fn is_default_ns_attr(a: AttrModel) -> bool {
    a.ns is None && a.name == xmlns_attr_name()
}

/// Whether an attribute declares a prefix for a namespace URI.
pub open spec fn is_prefix_decl_attr(a: AttrModel) -> bool {
    a.ns == Some(xmlns_namespace())
}

/// The default-namespace stack after one element start pushed a copy of the
/// inherited scope: the parent's entry is duplicated, or nothing is pushed
/// when no scope is open yet.
pub open spec fn inherit_default_ns(dns: Seq<Option<Seq<char>>>) -> Seq<Option<Seq<char>>> {
    if dns.len() > 0 {
        dns.push(dns.last())
    } else {
        dns
    }
}

/// The default-namespace stack after the attributes of a start marker were
/// scanned left to right: each `xmlns` attribute replaces the top entry
/// (pushing one if none is there), an empty value meaning "no default".
pub open spec fn scan_default_ns(
    dns: Seq<Option<Seq<char>>>,
    attrs: Seq<AttrModel>,
) -> Seq<Option<Seq<char>>>
    decreases attrs.len(),
{
    if attrs.len() == 0 {
        dns
    } else {
        let prev = scan_default_ns(dns, attrs.drop_last());
        let a = attrs.last();
        if is_default_ns_attr(a) {
            let popped = if prev.len() > 0 {
                prev.drop_last()
            } else {
                prev
            };
            popped.push(
                if a.value.len() == 0 {
                    None
                } else {
                    Some(a.value)
                },
            )
        } else {
            prev
        }
    }
}

/// The prefix-table snapshot after the attributes of a start marker were
/// scanned left to right: each attribute in the prefix-declaration namespace
/// binds its value (a namespace URI) to its local name (the prefix).
pub open spec fn scan_prefixes(
    table: Map<Seq<char>, Seq<char>>,
    attrs: Seq<AttrModel>,
) -> Map<Seq<char>, Seq<char>>
    decreases attrs.len(),
{
    if attrs.len() == 0 {
        table
    } else {
        let prev = scan_prefixes(table, attrs.drop_last());
        let a = attrs.last();
        if is_prefix_decl_attr(a) {
            prev.insert(a.value, a.name)
        } else {
            prev
        }
    }
}

/// The top of the default-namespace stack, or no default when none is open.
pub open spec fn top_default_ns(dns: Seq<Option<Seq<char>>>) -> Option<Seq<char>> {
    if dns.len() > 0 {
        dns.last()
    } else {
        None
    }
}

/// The element a start marker creates: its snapshot of the prefix table and
/// its resolved default namespace are fixed here, and it has no children yet.
pub open spec fn started_element(
    st: StartModel,
    table: Map<Seq<char>, Seq<char>>,
    dns: Seq<Option<Seq<char>>>,
) -> ElemModel {
    ElemModel {
        name: st.name,
        ns: st.ns,
        default_ns: top_default_ns(scan_default_ns(inherit_default_ns(dns), st.attributes)),
        prefixes: scan_prefixes(table, st.attributes),
        attributes: st.attributes,
        children: Seq::empty(),
    }
}

/// The stack with `node` appended to the children of the innermost element.
pub open spec fn append_child(stack: Seq<ElemModel>, node: NodeModel) -> Seq<ElemModel>
    recommends
        stack.len() > 0,
{
    let parent = stack.last();
    stack.update(
        stack.len() - 1,
        ElemModel { children: parent.children.push(node), ..parent },
    )
}

/// A content event: appended to the innermost open element, or silently
/// dropped when no element is open.
pub open spec fn step_content(pre: BuilderModel, node: NodeModel) -> (BuilderModel, OutcomeModel) {
    if pre.stack.len() > 0 {
        (BuilderModel { stack: append_child(pre.stack, node), ..pre }, OutcomeModel::Pending)
    } else {
        (pre, OutcomeModel::Pending)
    }
}

/// An end marker: both stacks are popped, then the popped element must match
/// the marker's name and namespace; it becomes a child of its parent, or the
/// finished root when no parent remains.
pub open spec fn step_end(pre: BuilderModel, et: EndModel) -> (BuilderModel, OutcomeModel) {
    if pre.stack.len() == 0 {
        (pre, OutcomeModel::Failed(ErrorModel::ImproperNesting))
    } else {
        let elem = pre.stack.last();
        let popped = BuilderModel {
            stack: pre.stack.drop_last(),
            default_ns: if pre.default_ns.len() > 0 {
                pre.default_ns.drop_last()
            } else {
                pre.default_ns
            },
            prefixes: pre.prefixes,
        };
        if elem.name != et.name || elem.ns != et.ns {
            (popped, OutcomeModel::Failed(ErrorModel::ImproperNesting))
        } else if popped.stack.len() > 0 {
            (
                BuilderModel {
                    stack: append_child(popped.stack, NodeModel::Element(elem)),
                    ..popped
                },
                OutcomeModel::Pending,
            )
        } else {
            (popped, OutcomeModel::Completed(elem))
        }
    }
}

/// The builder's transition function: the state after one event, and what
/// the processing call reports.
pub open spec fn step_event(pre: BuilderModel, ev: EventModel) -> (BuilderModel, OutcomeModel) {
    match ev {
        EventModel::Pi(text) => step_content(pre, NodeModel::Pi(text)),
        EventModel::Characters(text) => step_content(pre, NodeModel::Characters(text)),
        EventModel::Cdata(text) => step_content(pre, NodeModel::Cdata(text)),
        EventModel::Comment(text) => step_content(pre, NodeModel::Comment(text)),
        EventModel::Start(st) => (
            BuilderModel {
                stack: pre.stack.push(started_element(st, pre.prefixes, pre.default_ns)),
                default_ns: scan_default_ns(inherit_default_ns(pre.default_ns), st.attributes),
                prefixes: pre.prefixes,
            },
            OutcomeModel::Pending,
        ),
        EventModel::End(et) => step_end(pre, et),
    }
}

/// The transition for an event-or-failure input: an upstream failure is
/// wrapped and returned without touching any state.
pub open spec fn step(
    pre: BuilderModel,
    input: Result<EventModel, Seq<char>>,
) -> (BuilderModel, OutcomeModel) {
    match input {
        Ok(ev) => step_event(pre, ev),
        Err(msg) => (pre, OutcomeModel::Failed(ErrorModel::Upstream(msg))),
    }
}

/// The two bindings every fresh builder starts from.
pub open spec fn initial_prefixes() -> Map<Seq<char>, Seq<char>> {
    Map::empty().insert(xml_namespace(), "xml"@).insert(xmlns_namespace(), "xmlns"@)
}

/// The state of a fresh builder.
pub open spec fn initial_builder() -> BuilderModel {
    BuilderModel {
        stack: Seq::empty(),
        default_ns: Seq::empty(),
        prefixes: initial_prefixes(),
    }
}

} // verus!

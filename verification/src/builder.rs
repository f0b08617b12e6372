//! The tree builder: feeds on events, one at a time, and assembles
//! `Element` trees, following the transition function `model::step`.

use vstd::prelude::*;

use crate::model::BuilderModel;
use crate::model::EventModel;
use crate::model::OutcomeModel;
use crate::model::append_child;
use crate::model::inherit_default_ns;
use crate::model::initial_builder;
use crate::model::scan_default_ns;
use crate::model::scan_prefixes;
use crate::model::started_element;
use crate::model::step;
use crate::model::step_content;
use crate::model::step_event;
use crate::prefix_table::PrefixTable;
use crate::types::BuilderError;
use crate::types::Element;
use crate::types::EndTag;
use crate::types::Event;
use crate::types::ParserError;
use crate::types::StartTag;
use crate::types::Xml;
use crate::types::attrs_view;
use crate::types::clone_opt_string;
use crate::types::opt_str_view;
use crate::types::opt_string_eq;
use crate::types::str_eq;

verus! {

/// The models of the elements on an open-node stack, in order.
pub open spec fn stack_view(s: Seq<Element>) -> Seq<crate::model::ElemModel> {
    Seq::new(s.len(), |i: int| s[i].model())
}

/// The views of the entries of a default-namespace stack, in order.
pub open spec fn dns_view(s: Seq<Option<String>>) -> Seq<Option<Seq<char>>> {
    Seq::new(s.len(), |i: int| opt_str_view(s[i]))
}

/// The model of an event-or-failure input.
pub open spec fn input_view(e: Result<Event, ParserError>) -> Result<EventModel, Seq<char>> {
    match e {
        Ok(ev) => Ok(ev@),
        Err(pe) => Err(pe@),
    }
}

/// The model of what one processing call returned.
pub open spec fn outcome_of(r: Result<Option<Element>, BuilderError>) -> OutcomeModel {
    match r {
        Ok(Some(e)) => OutcomeModel::Completed(e.model()),
        Ok(None) => OutcomeModel::Pending,
        Err(err) => OutcomeModel::Failed(err@),
    }
}

/// An element equal to `before` except for one more child is modeled by
/// pushing that child's model.
proof fn lemma_model_push_child(before: Element, after: Element, node: Xml)
    requires
        after.name == before.name,
        after.ns == before.ns,
        after.default_ns == before.default_ns,
        after.prefixes == before.prefixes,
        after.attributes == before.attributes,
        after.children@ == before.children@.push(node),
    ensures
        after.model() == (crate::model::ElemModel {
            children: before.model().children.push(node.model()),
            ..before.model()
        }),
{
    crate::types::lemma_children_view(before.children@);
    crate::types::lemma_children_view(after.children@);
    assert(crate::types::children_view(after.children@) =~= crate::types::children_view(
        before.children@,
    ).push(node.model()));
    assert(after.model() =~= (crate::model::ElemModel {
        children: before.model().children.push(node.model()),
        ..before.model()
    }));
}

/// Builds `Element` trees from `Event`s.  It owns the open-node stack, the
/// default-namespace stack, and the persistent prefix table.
pub struct ElementBuilder {
    stack: Vec<Element>,
    default_ns: Vec<Option<String>>,
    prefixes: PrefixTable,
}

impl View for ElementBuilder {
    type V = BuilderModel;

    closed spec fn view(&self) -> BuilderModel {
        BuilderModel {
            stack: stack_view(self.stack@),
            default_ns: dns_view(self.default_ns@),
            prefixes: self.prefixes@,
        }
    }
}

impl ElementBuilder {
    /// A fresh builder: nothing open, no default namespace, and the two
    /// fixed prefix bindings for the XML and the prefix-declaration
    /// namespaces.
    pub fn new() -> (r: ElementBuilder)
        ensures
            r@ == initial_builder(),
    {
        let mut prefixes = PrefixTable::new();
        prefixes.insert(
            "http://www.w3.org/XML/1998/namespace".to_owned(),
            "xml".to_owned(),
        );
        prefixes.insert("http://www.w3.org/2000/xmlns/".to_owned(), "xmlns".to_owned());
        let r = ElementBuilder { stack: Vec::new(), default_ns: Vec::new(), prefixes };
        proof {
            assert(r@.stack =~= initial_builder().stack);
            assert(r@.default_ns =~= initial_builder().default_ns);
            assert(r@ =~= initial_builder());
        }
        r
    }

    /// Binds `prefix` to the namespace URI `ns` in the persistent table.
    /// Effective for all elements created afterward; elements already
    /// created keep their snapshots.
    pub fn define_prefix(&mut self, prefix: &str, ns: &str)
        ensures
            final(self)@ == (BuilderModel {
                prefixes: old(self)@.prefixes.insert(ns@, prefix@),
                ..old(self)@
            }),
    {
        self.prefixes.insert(ns.to_owned(), prefix.to_owned());
        proof {
            assert(self@.stack =~= old(self)@.stack);
            assert(self@.default_ns =~= old(self)@.default_ns);
        }
    }

    /// Replaces the whole default-namespace stack with the single entry
    /// `ns`.  Meant to be called before the first start event of a
    /// document: a mid-document call discards the nested scoping that had
    /// accumulated.
    pub fn set_default_ns(&mut self, ns: &str)
        ensures
            final(self)@ == (BuilderModel {
                default_ns: seq![Some(ns@)],
                ..old(self)@
            }),
    {
        let mut stack: Vec<Option<String>> = Vec::new();
        stack.push(Some(ns.to_owned()));
        self.default_ns = stack;
        proof {
            assert(self@.stack =~= old(self)@.stack);
            assert(self@.default_ns =~= seq![Some(ns@)]);
        }
    }

    /// Appends one node to the innermost open element's children, or drops
    /// it when no element is open.
    fn push_node(&mut self, node: Xml)
        ensures
            final(self)@ == step_content(old(self)@, node.model()).0,
    {
        let ghost pre = self@;
        let ghost node0 = node;
        if self.stack.len() > 0 {
            let ghost stack0 = self.stack@;
            let n = self.stack.len();
            let mut top = self.stack.pop().unwrap();
            let ghost top0 = top;
            top.children.push(node);
            let ghost top1 = top;
            self.stack.push(top);
            proof {
                lemma_model_push_child(top0, top1, node0);
                assert(self.stack@ =~= stack0.update(n - 1, top1));
                assert(stack_view(self.stack@) =~= append_child(pre.stack, node0.model()));
                assert(self@ =~= step_content(pre, node0.model()).0);
            }
        } else {
            proof {
                assert(self@ =~= pre);
            }
        }
    }

    /// Opens a new element: creates it with a snapshot of the prefix table,
    /// scans its attributes for namespace declarations, resolves its default
    /// namespace, and pushes it onto the open-node stack.
    fn handle_start(&mut self, st: StartTag)
        ensures
            final(self)@ == step_event(old(self)@, EventModel::Start(st@)).0,
    {
        let ghost pre = self@;
        let ghost stm = st@;
        let StartTag { name, ns, prefix: _, attributes } = st;
        let mut elem = Element {
            name,
            ns,
            default_ns: None,
            prefixes: self.prefixes.duplicate(),
            attributes,
            children: Vec::new(),
        };
        if self.default_ns.len() > 0 {
            let idx = self.default_ns.len() - 1;
            let inherited = clone_opt_string(&self.default_ns[idx]);
            self.default_ns.push(inherited);
        }
        proof {
            assert(dns_view(self.default_ns@) =~= inherit_default_ns(pre.default_ns));
        }
        let ghost dns_base = dns_view(self.default_ns@);
        let ghost table_base = elem.prefixes@;
        let ghost attrs = stm.attributes;
        let ghost stack0 = self.stack@;
        let ghost prefixes0 = self.prefixes;
        let mut i: usize = 0;
        while i < elem.attributes.len()
            invariant
                i <= elem.attributes@.len(),
                attrs == attrs_view(elem.attributes@),
                attrs.len() == elem.attributes@.len(),
                elem.name@ == stm.name,
                opt_str_view(elem.ns) == stm.ns,
                elem.default_ns is None,
                elem.children@ == Seq::<Xml>::empty(),
                elem.prefixes@ == scan_prefixes(table_base, attrs.take(i as int)),
                dns_view(self.default_ns@) == scan_default_ns(dns_base, attrs.take(i as int)),
                self.stack@ == stack0,
                self.prefixes == prefixes0,
            decreases elem.attributes@.len() - i,
        {
            let a = &elem.attributes[i];
            let ghost am = attrs[i as int];
            let default_attr = a.ns.is_none() && str_eq(a.name.as_str(), "xmlns");
            let decl_attr = match &a.ns {
                Some(x) => str_eq(x.as_str(), "http://www.w3.org/2000/xmlns/"),
                None => false,
            };
            proof {
                assert(am == (*a)@);
                assert(default_attr == crate::model::is_default_ns_attr(am));
                assert(decl_attr == crate::model::is_prefix_decl_attr(am));
                assert(attrs.take(i as int + 1).drop_last() =~= attrs.take(i as int));
                assert(attrs.take(i as int + 1).last() == am);
            }
            if default_attr {
                let ghost d0 = self.default_ns@;
                let _ = self.default_ns.pop();
                let ghost d1 = self.default_ns@;
                if a.value.as_str().is_empty() {
                    self.default_ns.push(None);
                } else {
                    self.default_ns.push(Some(a.value.clone()));
                }
                proof {
                    let prev = scan_default_ns(dns_base, attrs.take(i as int));
                    assert(dns_view(d1) =~= (
                    if prev.len() > 0 {
                        prev.drop_last()
                    } else {
                        prev
                    }));
                    assert(dns_view(self.default_ns@) =~= scan_default_ns(
                        dns_base,
                        attrs.take(i as int + 1),
                    ));
                }
            } else if decl_attr {
                elem.prefixes.insert(a.value.clone(), a.name.clone());
                proof {
                    assert(elem.prefixes@ == scan_prefixes(table_base, attrs.take(i as int + 1)));
                }
            } else {
                proof {
                    assert(attrs.take(i as int + 1).drop_last() =~= attrs.take(i as int));
                }
            }
            i = i + 1;
        }
        proof {
            assert(attrs.take(attrs.len() as int) =~= attrs);
        }
        let dlen = self.default_ns.len();
        if dlen > 0 {
            elem.default_ns = clone_opt_string(&self.default_ns[dlen - 1]);
        }
        let ghost elem1 = elem;
        self.stack.push(elem);
        proof {
            crate::types::lemma_children_view(Seq::<Xml>::empty());
            assert(elem1.model() =~= started_element(stm, pre.prefixes, pre.default_ns));
            assert(stack_view(self.stack@) =~= pre.stack.push(
                started_element(stm, pre.prefixes, pre.default_ns),
            ));
            assert(self@ =~= step_event(pre, EventModel::Start(stm)).0);
        }
    }

    /// Closes the innermost open element: both stacks are popped, the popped
    /// element must match the end marker, and it becomes a child of its
    /// parent or the finished root.
    fn handle_end(&mut self, et: EndTag) -> (r: Result<Option<Element>, BuilderError>)
        ensures
            ({
                let sr = crate::model::step_end(old(self)@, et@);
                final(self)@ == sr.0 && outcome_of(r) == sr.1
            }),
    {
        let ghost pre = self@;
        let elem = match self.stack.pop() {
            Some(elem) => elem,
            None => {
                proof {
                    assert(self@ =~= pre);
                }
                return Err(BuilderError::ImproperNesting);
            },
        };
        let ghost elem0 = elem;
        proof {
            assert(stack_view(self.stack@) =~= pre.stack.drop_last());
            assert(elem0.model() == pre.stack.last());
        }
        let _ = self.default_ns.pop();
        proof {
            assert(dns_view(self.default_ns@) =~= (
            if pre.default_ns.len() > 0 {
                pre.default_ns.drop_last()
            } else {
                pre.default_ns
            }));
        }
        let name_matches = elem.name == et.name;
        let ns_matches = opt_string_eq(&elem.ns, &et.ns);
        if !name_matches || !ns_matches {
            return Err(BuilderError::ImproperNesting);
        }
        if self.stack.len() > 0 {
            let ghost stack1 = self.stack@;
            let n = self.stack.len();
            let mut parent = self.stack.pop().unwrap();
            let ghost parent0 = parent;
            parent.children.push(Xml::ElementNode(elem));
            let ghost parent1 = parent;
            self.stack.push(parent);
            proof {
                lemma_model_push_child(parent0, parent1, Xml::ElementNode(elem0));
                assert(self.stack@ =~= stack1.update(n - 1, parent1));
                assert(stack_view(self.stack@) =~= append_child(
                    pre.stack.drop_last(),
                    crate::model::NodeModel::Element(elem0.model()),
                ));
            }
            Ok(None)
        } else {
            Ok(Some(elem))
        }
    }

    /// Hands one event to the builder.  While no root element has finished,
    /// `Ok(None)` is returned; when the outermost element closes, it is
    /// returned as `Ok(Some(root))`; an upstream failure is wrapped, and
    /// improperly nested markers are reported, as an `Err`.  The builder
    /// follows the transition function `model::step` exactly.
    pub fn push_event(&mut self, e: Result<Event, ParserError>) -> (r: Result<
        Option<Element>,
        BuilderError,
    >)
        ensures
            ({
                let sr = step(old(self)@, input_view(e));
                final(self)@ == sr.0 && outcome_of(r) == sr.1
            }),
    {
        let ev = match e {
            Ok(ev) => ev,
            Err(pe) => {
                return Err(BuilderError::Parser(pe));
            },
        };
        match ev {
            Event::PI(text) => {
                self.push_node(Xml::PINode(text));
                Ok(None)
            },
            Event::Characters(text) => {
                self.push_node(Xml::CharacterNode(text));
                Ok(None)
            },
            Event::CDATA(text) => {
                self.push_node(Xml::CDATANode(text));
                Ok(None)
            },
            Event::Comment(text) => {
                self.push_node(Xml::CommentNode(text));
                Ok(None)
            },
            Event::ElementStart(st) => {
                self.handle_start(st);
                Ok(None)
            },
            Event::ElementEnd(et) => self.handle_end(et),
        }
    }
}

} // verus!

//! Laws of the builder, stated and proved over the ghost model.
//!
//! The main law: feeding any well-balanced event sequence to a builder with
//! no open element reports "pending" for every event except the last, whose
//! call completes exactly the tree that the sequence describes.

use vstd::prelude::*;

use crate::model::AttrModel;
use crate::model::BuilderModel;
use crate::model::ElemModel;
use crate::model::EndModel;
use crate::model::EventModel;
use crate::model::NodeModel;
use crate::model::OutcomeModel;
use crate::model::StartModel;
use crate::model::inherit_default_ns;
use crate::model::is_default_ns_attr;
use crate::model::is_prefix_decl_attr;
use crate::model::scan_default_ns;
use crate::model::scan_prefixes;
use crate::model::started_element;
use crate::model::step_event;
use crate::model::top_default_ns;

verus! {

/// The state and the reported outcomes after a whole sequence of events.
pub open spec fn run(
    pre: BuilderModel,
    evs: Seq<EventModel>,
) -> (BuilderModel, Seq<OutcomeModel>)
    decreases evs.len(),
{
    if evs.len() == 0 {
        (pre, Seq::empty())
    } else {
        let first = step_event(pre, evs.first());
        let rest = run(first.0, evs.drop_first());
        (rest.0, seq![first.1] + rest.1)
    }
}

/// Running a concatenation runs the two parts one after the other.
pub proof fn lemma_run_concat(pre: BuilderModel, a: Seq<EventModel>, b: Seq<EventModel>)
    ensures
        ({
            let ra = run(pre, a);
            let rb = run(ra.0, b);
            run(pre, a + b) == (rb.0, ra.1 + rb.1)
        }),
    decreases a.len(),
{
    if a.len() == 0 {
        assert(a + b =~= b);
        assert(run(pre, a).1 + run(run(pre, a).0, b).1 =~= run(run(pre, a).0, b).1);
    } else {
        let mid = step_event(pre, a.first());
        assert((a + b).first() == a.first());
        assert((a + b).drop_first() =~= a.drop_first() + b);
        lemma_run_concat(mid.0, a.drop_first(), b);
        let ra = run(pre, a);
        let rb = run(ra.0, b);
        assert(run(pre, a + b).1 =~= ra.1 + rb.1);
    }
}

/// A well-balanced piece of a document: loose content, or a whole element
/// with its start marker, its body, and its end marker.
pub enum DocItem {
    Pi(Seq<char>),
    Characters(Seq<char>),
    Cdata(Seq<char>),
    Comment(Seq<char>),
    Tree(StartModel, EndModel, Seq<DocItem>),
}

/// Every end marker carries the name and namespace of its start marker.
pub open spec fn item_wf(it: DocItem) -> bool
    decreases it,
{
    match it {
        DocItem::Tree(st, en, body) => st.name == en.name && st.ns == en.ns && forest_wf(body),
        _ => true,
    }
}

/// Every item of the row is well formed.
pub open spec fn forest_wf(items: Seq<DocItem>) -> bool
    decreases items,
{
    if items.len() == 0 {
        true
    } else {
        item_wf(items.first()) && forest_wf(items.drop_first())
    }
}

/// The event sequence an item stands for.
pub open spec fn flatten_item(it: DocItem) -> Seq<EventModel>
    decreases it,
{
    match it {
        DocItem::Pi(t) => seq![EventModel::Pi(t)],
        DocItem::Characters(t) => seq![EventModel::Characters(t)],
        DocItem::Cdata(t) => seq![EventModel::Cdata(t)],
        DocItem::Comment(t) => seq![EventModel::Comment(t)],
        DocItem::Tree(st, en, body) => seq![EventModel::Start(st)] + flatten_forest(body)
            + seq![EventModel::End(en)],
    }
}

/// The event sequence a row of items stands for.
pub open spec fn flatten_forest(items: Seq<DocItem>) -> Seq<EventModel>
    decreases items,
{
    if items.len() == 0 {
        Seq::empty()
    } else {
        flatten_item(items.first()) + flatten_forest(items.drop_first())
    }
}

/// The node an item denotes, under a prefix table and a default-namespace
/// stack: content becomes the matching node, and a whole element becomes the
/// element its start marker creates, filled with the nodes of its body.
pub open spec fn denote_item(
    it: DocItem,
    table: Map<Seq<char>, Seq<char>>,
    dns: Seq<Option<Seq<char>>>,
) -> NodeModel
    decreases it,
{
    match it {
        DocItem::Pi(t) => NodeModel::Pi(t),
        DocItem::Characters(t) => NodeModel::Characters(t),
        DocItem::Cdata(t) => NodeModel::Cdata(t),
        DocItem::Comment(t) => NodeModel::Comment(t),
        DocItem::Tree(st, en, body) => {
            let dns2 = scan_default_ns(inherit_default_ns(dns), st.attributes);
            NodeModel::Element(
                ElemModel {
                    name: st.name,
                    ns: st.ns,
                    default_ns: top_default_ns(dns2),
                    prefixes: scan_prefixes(table, st.attributes),
                    attributes: st.attributes,
                    children: denote_forest(body, table, dns2),
                },
            )
        },
    }
}

/// The nodes a row of items denotes, in order.
pub open spec fn denote_forest(
    items: Seq<DocItem>,
    table: Map<Seq<char>, Seq<char>>,
    dns: Seq<Option<Seq<char>>>,
) -> Seq<NodeModel>
    decreases items,
{
    if items.len() == 0 {
        Seq::empty()
    } else {
        denote_forest(items.drop_last(), table, dns).push(
            denote_item(items.last(), table, dns),
        )
    }
}

/// `denote_forest` maps the row item by item.
pub proof fn lemma_denote_forest(
    items: Seq<DocItem>,
    table: Map<Seq<char>, Seq<char>>,
    dns: Seq<Option<Seq<char>>>,
)
    ensures
        denote_forest(items, table, dns).len() == items.len(),
        forall|i: int|
            0 <= i < items.len() ==> denote_forest(items, table, dns)[i] == denote_item(
                items[i],
                table,
                dns,
            ),
    decreases items.len(),
{
    if items.len() > 0 {
        lemma_denote_forest(items.drop_last(), table, dns);
    }
}

/// A sequence of n "pending" outcomes.
pub open spec fn all_pending(n: nat) -> Seq<OutcomeModel> {
    Seq::new(n, |k: int| OutcomeModel::Pending)
}

/// Scanning attributes changes at most the top of the default-namespace
/// stack, and can grow an empty stack by at most one entry.
pub proof fn lemma_scan_default_ns_frame(dns: Seq<Option<Seq<char>>>, attrs: Seq<AttrModel>)
    ensures
        dns.len() > 0 ==> scan_default_ns(dns, attrs).len() == dns.len() && scan_default_ns(
            dns,
            attrs,
        ).drop_last() == dns.drop_last(),
        dns.len() == 0 ==> scan_default_ns(dns, attrs).len() <= 1,
    decreases attrs.len(),
{
    if attrs.len() > 0 {
        lemma_scan_default_ns_frame(dns, attrs.drop_last());
        let prev = scan_default_ns(dns, attrs.drop_last());
        let cur = scan_default_ns(dns, attrs);
        if is_default_ns_attr(attrs.last()) && dns.len() > 0 {
            assert(cur.drop_last() =~= prev.drop_last());
        }
    }
}

/// Closing the scope an element start opened restores the stack the start
/// found.
pub proof fn lemma_scope_restored(dns: Seq<Option<Seq<char>>>, attrs: Seq<AttrModel>)
    ensures
        ({
            let dns2 = scan_default_ns(inherit_default_ns(dns), attrs);
            (if dns2.len() > 0 {
                dns2.drop_last()
            } else {
                dns2
            }) == dns
        }),
{
    lemma_scan_default_ns_frame(inherit_default_ns(dns), attrs);
    let dns2 = scan_default_ns(inherit_default_ns(dns), attrs);
    if dns.len() > 0 {
        assert(dns2.drop_last() =~= dns);
    } else {
        if dns2.len() > 0 {
            assert(dns2.drop_last() =~= dns);
        } else {
            assert(dns2 =~= dns);
        }
    }
}

/// Running one content event from a state with an open element appends one
/// node to that element's children.
proof fn lemma_run_content(pre: BuilderModel, ev: EventModel, node: NodeModel)
    requires
        pre.stack.len() > 0,
        step_event(pre, ev) == crate::model::step_content(pre, node),
    ensures
        ({
            let r = run(pre, seq![ev]);
            let top = pre.stack.last();
            r.0 == (BuilderModel {
                stack: pre.stack.update(
                    pre.stack.len() - 1,
                    ElemModel { children: top.children.push(node), ..top },
                ),
                ..pre
            }) && r.1 == all_pending(1)
        }),
{
    reveal_with_fuel(run, 2);
    let evs = seq![ev];
    assert(evs.len() == 1);
    assert(evs.first() == ev);
    assert(evs.drop_first() =~= Seq::<EventModel>::empty());
    assert(run(pre, evs).0 == crate::model::step_content(pre, node).0);
    assert(run(pre, evs).1 =~= all_pending(1));
}

/// Running the events of one well-balanced item from a state with an open
/// element appends the item's node to that element's children, reports
/// "pending" for every event, and leaves everything else unchanged.
pub proof fn lemma_run_item(pre: BuilderModel, it: DocItem)
    requires
        pre.stack.len() > 0,
        item_wf(it),
    ensures
        ({
            let r = run(pre, flatten_item(it));
            let top = pre.stack.last();
            r.0 == (BuilderModel {
                stack: pre.stack.update(
                    pre.stack.len() - 1,
                    ElemModel {
                        children: top.children.push(
                            denote_item(it, pre.prefixes, pre.default_ns),
                        ),
                        ..top
                    },
                ),
                ..pre
            }) && r.1 == all_pending(flatten_item(it).len())
        }),
    decreases it,
{
    reveal_with_fuel(run, 2);
    let top = pre.stack.last();
    match it {
        DocItem::Tree(st, en, body) => {
            let a = seq![EventModel::Start(st)];
            let b = flatten_forest(body);
            let c = seq![EventModel::End(en)];
            assert(flatten_item(it) == (a + b) + c);
            let dns2 = scan_default_ns(inherit_default_ns(pre.default_ns), st.attributes);
            let started = started_element(st, pre.prefixes, pre.default_ns);
            // the start event
            let p1 = step_event(pre, EventModel::Start(st)).0;
            assert(a.drop_first() =~= Seq::<EventModel>::empty());
            assert(run(pre, a).0 == p1);
            assert(run(pre, a).1 =~= seq![OutcomeModel::Pending]);
            // the body
            lemma_run_item_forest(p1, body);
            let r2 = run(p1, b);
            let elem = ElemModel {
                name: st.name,
                ns: st.ns,
                default_ns: top_default_ns(dns2),
                prefixes: scan_prefixes(pre.prefixes, st.attributes),
                attributes: st.attributes,
                children: denote_forest(body, pre.prefixes, dns2),
            };
            assert(started.children + denote_forest(body, p1.prefixes, p1.default_ns)
                =~= denote_forest(body, pre.prefixes, dns2));
            assert(p1.stack.last() == started);
            assert(r2.0.stack =~= p1.stack.update(p1.stack.len() - 1, elem));
            // the end event
            lemma_scope_restored(pre.default_ns, st.attributes);
            assert(r2.0.stack.len() > 1);
            assert(r2.0.stack.last() == elem);
            assert(r2.0.stack.drop_last() =~= pre.stack);
            let done = step_event(r2.0, EventModel::End(en));
            assert(c.drop_first() =~= Seq::<EventModel>::empty());
            assert(run(r2.0, c).0 == done.0);
            assert(run(r2.0, c).1 =~= seq![OutcomeModel::Pending]);
            assert(done.0.stack =~= pre.stack.update(
                pre.stack.len() - 1,
                ElemModel {
                    children: top.children.push(NodeModel::Element(elem)),
                    ..top
                },
            ));
            assert(done.0 =~= (BuilderModel {
                stack: pre.stack.update(
                    pre.stack.len() - 1,
                    ElemModel {
                        children: top.children.push(
                            denote_item(it, pre.prefixes, pre.default_ns),
                        ),
                        ..top
                    },
                ),
                ..pre
            }));
            // assemble the run
            lemma_run_concat(pre, a, b);
            lemma_run_concat(pre, a + b, c);
            assert(run(pre, flatten_item(it)).0 == done.0);
            assert(run(pre, flatten_item(it)).1 =~= all_pending(flatten_item(it).len()));
        },
        DocItem::Pi(t) => {
            lemma_run_content(pre, EventModel::Pi(t), NodeModel::Pi(t));
        },
        DocItem::Characters(t) => {
            lemma_run_content(pre, EventModel::Characters(t), NodeModel::Characters(t));
        },
        DocItem::Cdata(t) => {
            lemma_run_content(pre, EventModel::Cdata(t), NodeModel::Cdata(t));
        },
        DocItem::Comment(t) => {
            lemma_run_content(pre, EventModel::Comment(t), NodeModel::Comment(t));
        },
    }
}

/// Running the events of a row of well-balanced items appends their nodes,
/// in order, to the children of the innermost open element.
pub proof fn lemma_run_item_forest(pre: BuilderModel, items: Seq<DocItem>)
    requires
        pre.stack.len() > 0,
        forest_wf(items),
    ensures
        ({
            let r = run(pre, flatten_forest(items));
            let top = pre.stack.last();
            r.0 == (BuilderModel {
                stack: pre.stack.update(
                    pre.stack.len() - 1,
                    ElemModel {
                        children: top.children + denote_forest(
                            items,
                            pre.prefixes,
                            pre.default_ns,
                        ),
                        ..top
                    },
                ),
                ..pre
            }) && r.1 == all_pending(flatten_forest(items).len())
        }),
    decreases items,
{
    let top = pre.stack.last();
    lemma_denote_forest(items, pre.prefixes, pre.default_ns);
    if items.len() == 0 {
        assert(top.children + denote_forest(items, pre.prefixes, pre.default_ns)
            =~= top.children);
        assert((ElemModel {
            children: top.children + denote_forest(items, pre.prefixes, pre.default_ns),
            ..top
        }) =~= top);
        assert(pre.stack.update(pre.stack.len() - 1, top) =~= pre.stack);
        assert(run(pre, flatten_forest(items)).0 =~= pre);
        assert(run(pre, flatten_forest(items)).1 =~= all_pending(0));
    } else {
        let first = items.first();
        let rest = items.drop_first();
        let d0 = denote_item(first, pre.prefixes, pre.default_ns);
        lemma_run_item(pre, first);
        let r1 = run(pre, flatten_item(first));
        assert(r1.0.stack.len() == pre.stack.len());
        assert(r1.0.stack.last() == (ElemModel { children: top.children.push(d0), ..top }));
        lemma_run_item_forest(r1.0, rest);
        lemma_denote_forest(rest, pre.prefixes, pre.default_ns);
        let r2 = run(r1.0, flatten_forest(rest));
        assert(top.children.push(d0) + denote_forest(rest, r1.0.prefixes, r1.0.default_ns)
            =~= top.children + denote_forest(items, pre.prefixes, pre.default_ns));
        assert(r2.0.stack =~= pre.stack.update(
            pre.stack.len() - 1,
            ElemModel {
                children: top.children + denote_forest(items, pre.prefixes, pre.default_ns),
                ..top
            },
        ));
        lemma_run_concat(pre, flatten_item(first), flatten_forest(rest));
        assert(run(pre, flatten_forest(items)).0 == r2.0);
        assert(run(pre, flatten_forest(items)).1 =~= all_pending(
            flatten_forest(items).len(),
        ));
    }
}

/// Law: feeding a whole well-balanced element - its start marker, a
/// well-balanced body, and its matching end marker - to a builder with no
/// open element reports "pending" for every event except the last, whose
/// call completes exactly the tree those events describe, and returns the
/// builder to a state with no open element, ready for the next document.
pub proof fn lemma_balanced_document(
    pre: BuilderModel,
    st: StartModel,
    en: EndModel,
    body: Seq<DocItem>,
)
    requires
        pre.stack.len() == 0,
        item_wf(DocItem::Tree(st, en, body)),
    ensures
        ({
            let evs = flatten_item(DocItem::Tree(st, en, body));
            let r = run(pre, evs);
            let root = denote_item(DocItem::Tree(st, en, body), pre.prefixes, pre.default_ns);
            evs.len() >= 2 && r.1.len() == evs.len() && (forall|i: int|
                0 <= i < evs.len() - 1 ==> r.1[i] == OutcomeModel::Pending) && r.1.last()
                == OutcomeModel::Completed(root->Element_0) && root is Element
                && r.0.stack.len() == 0 && r.0.default_ns == pre.default_ns && r.0.prefixes
                == pre.prefixes
        }),
{
    reveal_with_fuel(run, 2);
    let it = DocItem::Tree(st, en, body);
    let a = seq![EventModel::Start(st)];
    let b = flatten_forest(body);
    let c = seq![EventModel::End(en)];
    assert(flatten_item(it) == (a + b) + c);
    let dns2 = scan_default_ns(inherit_default_ns(pre.default_ns), st.attributes);
    let started = started_element(st, pre.prefixes, pre.default_ns);
    let p1 = step_event(pre, EventModel::Start(st)).0;
    assert(a.drop_first() =~= Seq::<EventModel>::empty());
    assert(run(pre, a).0 == p1);
    assert(run(pre, a).1 =~= seq![OutcomeModel::Pending]);
    assert(p1.stack.len() == 1);
    lemma_run_item_forest(p1, body);
    let r2 = run(p1, b);
    let elem = ElemModel {
        name: st.name,
        ns: st.ns,
        default_ns: top_default_ns(dns2),
        prefixes: scan_prefixes(pre.prefixes, st.attributes),
        attributes: st.attributes,
        children: denote_forest(body, pre.prefixes, dns2),
    };
    assert(started.children + denote_forest(body, p1.prefixes, p1.default_ns) =~= denote_forest(
        body,
        pre.prefixes,
        dns2,
    ));
    assert(r2.0.stack =~= seq![elem]);
    lemma_scope_restored(pre.default_ns, st.attributes);
    let done = step_event(r2.0, EventModel::End(en));
    assert(c.drop_first() =~= Seq::<EventModel>::empty());
    assert(run(r2.0, c).0 == done.0);
    assert(run(r2.0, c).1 =~= seq![OutcomeModel::Completed(elem)]);
    assert(done.0.stack =~= Seq::<ElemModel>::empty());
    lemma_run_concat(pre, a, b);
    lemma_run_concat(pre, a + b, c);
    let evs = flatten_item(it);
    let r = run(pre, evs);
    assert(r.1 =~= (seq![OutcomeModel::Pending] + all_pending(b.len())) + seq![
        OutcomeModel::Completed(elem),
    ]);
    assert(forall|i: int| 0 <= i < evs.len() - 1 ==> r.1[i] == OutcomeModel::Pending);
    assert(r.1.last() == OutcomeModel::Completed(elem));
}

/// Law: an attribute in the prefix-declaration namespace ends up in the
/// started element's own prefix table, binding the attribute's value (a
/// namespace URI) to its local name, unless a later attribute declares a
/// prefix for the same URI.
pub proof fn lemma_prefix_declaration_recorded(
    table: Map<Seq<char>, Seq<char>>,
    attrs: Seq<AttrModel>,
    i: int,
)
    requires
        0 <= i < attrs.len(),
        is_prefix_decl_attr(attrs[i]),
        forall|j: int|
            i < j < attrs.len() ==> !(#[trigger] is_prefix_decl_attr(attrs[j]) && attrs[j].value
                == attrs[i].value),
    ensures
        scan_prefixes(table, attrs).contains_key(attrs[i].value),
        scan_prefixes(table, attrs)[attrs[i].value] == attrs[i].name,
    decreases attrs.len(),
{
    if i < attrs.len() - 1 {
        assert(attrs.drop_last()[i] == attrs[i]);
        lemma_prefix_declaration_recorded(table, attrs.drop_last(), i);
    }
}

/// Law: starting an element leaves the builder's persistent prefix table and
/// every element already on the stack untouched: snapshots taken earlier
/// never see a declaration that a later element makes.
pub proof fn lemma_start_isolates_snapshots(pre: BuilderModel, st: StartModel)
    ensures
        step_event(pre, EventModel::Start(st)).0.prefixes == pre.prefixes,
        forall|i: int|
            0 <= i < pre.stack.len() ==> step_event(pre, EventModel::Start(st)).0.stack[i]
                == pre.stack[i],
{
}

/// Law: a comment, character-data, CDATA or processing-instruction event
/// arriving while no element is open is accepted without error and
/// contributes no node to any tree: the state is unchanged.
pub proof fn lemma_content_outside_root(pre: BuilderModel, text: Seq<char>)
    requires
        pre.stack.len() == 0,
    ensures
        step_event(pre, EventModel::Characters(text)) == (pre, OutcomeModel::Pending),
        step_event(pre, EventModel::Comment(text)) == (pre, OutcomeModel::Pending),
        step_event(pre, EventModel::Cdata(text)) == (pre, OutcomeModel::Pending),
        step_event(pre, EventModel::Pi(text)) == (pre, OutcomeModel::Pending),
{
}

} // verus!


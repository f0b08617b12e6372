use xml_tree::Attribute;
use xml_tree::BuilderError;
use xml_tree::Element;
use xml_tree::ElementBuilder;
use xml_tree::EndTag;
use xml_tree::Event;
use xml_tree::ParserError;
use xml_tree::StartTag;
use xml_tree::Xml;

const XMLNS_NS: &str = "http://www.w3.org/2000/xmlns/";

fn attr(name: &str, ns: Option<&str>, value: &str) -> Attribute {
    Attribute {
        name: name.to_string(),
        ns: ns.map(|s| s.to_string()),
        value: value.to_string(),
    }
}

fn start(name: &str, attributes: Vec<Attribute>) -> Event {
    Event::ElementStart(StartTag {
        name: name.to_string(),
        ns: None,
        prefix: None,
        attributes,
    })
}

fn end(name: &str) -> Event {
    Event::ElementEnd(EndTag { name: name.to_string(), ns: None, prefix: None })
}

fn feed_pending(b: &mut ElementBuilder, ev: Event) {
    let out = b.push_event(Ok(ev));
    assert_eq!(out, Ok(None));
}

fn feed_root(b: &mut ElementBuilder, ev: Event) -> Element {
    let out = b.push_event(Ok(ev));
    match out {
        Ok(Some(root)) => root,
        other => panic!("expected a completed root, got {:?}", other),
    }
}

#[test]
fn nested_pair_builds_root_with_one_child() {
    let mut b = ElementBuilder::new();
    feed_pending(&mut b, start("a", vec![]));
    feed_pending(&mut b, start("b", vec![]));
    feed_pending(&mut b, end("b"));
    let root = feed_root(&mut b, end("a"));
    assert_eq!(root.name, "a");
    assert_eq!(root.ns, None);
    assert_eq!(root.children.len(), 1);
    match &root.children[0] {
        Xml::ElementNode(child) => {
            assert_eq!(child.name, "b");
            assert_eq!(child.children.len(), 0);
        }
        other => panic!("expected an element child, got {:?}", other),
    }
}

#[test]
fn end_without_start_is_improper_nesting() {
    let mut b = ElementBuilder::new();
    let out = b.push_event(Ok(end("a")));
    assert_eq!(out, Err(BuilderError::ImproperNesting));
}

#[test]
fn mismatched_end_is_improper_nesting() {
    let mut b = ElementBuilder::new();
    feed_pending(&mut b, start("a", vec![]));
    let out = b.push_event(Ok(end("b")));
    assert_eq!(out, Err(BuilderError::ImproperNesting));
}

#[test]
fn mismatched_namespace_is_improper_nesting() {
    let mut b = ElementBuilder::new();
    feed_pending(
        &mut b,
        Event::ElementStart(StartTag {
            name: "a".to_string(),
            ns: Some("urn:one".to_string()),
            prefix: None,
            attributes: vec![],
        }),
    );
    let out = b.push_event(Ok(end("a")));
    assert_eq!(out, Err(BuilderError::ImproperNesting));
}

#[test]
fn default_namespace_is_inherited() {
    let mut b = ElementBuilder::new();
    feed_pending(&mut b, start("a", vec![attr("xmlns", None, "urn:x")]));
    feed_pending(&mut b, start("b", vec![]));
    feed_pending(&mut b, end("b"));
    let root = feed_root(&mut b, end("a"));
    assert_eq!(root.default_ns, Some("urn:x".to_string()));
    match &root.children[0] {
        Xml::ElementNode(child) => {
            assert_eq!(child.default_ns, Some("urn:x".to_string()));
        }
        other => panic!("expected an element child, got {:?}", other),
    }
}

#[test]
fn empty_xmlns_clears_inherited_default() {
    let mut b = ElementBuilder::new();
    feed_pending(&mut b, start("a", vec![attr("xmlns", None, "urn:x")]));
    feed_pending(&mut b, start("b", vec![attr("xmlns", None, "")]));
    feed_pending(&mut b, end("b"));
    let root = feed_root(&mut b, end("a"));
    assert_eq!(root.default_ns, Some("urn:x".to_string()));
    match &root.children[0] {
        Xml::ElementNode(child) => {
            assert_eq!(child.default_ns, None);
        }
        other => panic!("expected an element child, got {:?}", other),
    }
}

#[test]
fn nested_xmlns_override_is_scoped() {
    let mut b = ElementBuilder::new();
    feed_pending(&mut b, start("a", vec![attr("xmlns", None, "urn:x")]));
    feed_pending(&mut b, start("b", vec![attr("xmlns", None, "urn:z")]));
    feed_pending(&mut b, end("b"));
    feed_pending(&mut b, start("c", vec![]));
    feed_pending(&mut b, end("c"));
    let root = feed_root(&mut b, end("a"));
    match (&root.children[0], &root.children[1]) {
        (Xml::ElementNode(b_elem), Xml::ElementNode(c_elem)) => {
            assert_eq!(b_elem.default_ns, Some("urn:z".to_string()));
            assert_eq!(c_elem.default_ns, Some("urn:x".to_string()));
        }
        other => panic!("expected two element children, got {:?}", other),
    }
}

#[test]
fn prefix_declaration_scoped_to_element() {
    let mut b = ElementBuilder::new();
    feed_pending(&mut b, start("a", vec![]));
    feed_pending(&mut b, start("b", vec![attr("p", Some(XMLNS_NS), "urn:y")]));
    feed_pending(&mut b, end("b"));
    let root = feed_root(&mut b, end("a"));
    assert_eq!(root.prefixes.get(&"urn:y".to_string()), None);
    match &root.children[0] {
        Xml::ElementNode(child) => {
            assert_eq!(
                child.prefixes.get(&"urn:y".to_string()),
                Some(&"p".to_string())
            );
        }
        other => panic!("expected an element child, got {:?}", other),
    }
}

#[test]
fn content_before_root_is_dropped() {
    let mut b = ElementBuilder::new();
    feed_pending(&mut b, Event::Comment("early".to_string()));
    feed_pending(&mut b, Event::Characters("loose".to_string()));
    feed_pending(&mut b, start("a", vec![]));
    let root = feed_root(&mut b, end("a"));
    assert_eq!(root.children.len(), 0);
}

#[test]
fn content_inside_element_is_appended_in_order() {
    let mut b = ElementBuilder::new();
    feed_pending(&mut b, start("a", vec![]));
    feed_pending(&mut b, Event::Characters("text".to_string()));
    feed_pending(&mut b, Event::CDATA("raw".to_string()));
    feed_pending(&mut b, Event::Comment("note".to_string()));
    feed_pending(&mut b, Event::PI("target".to_string()));
    let root = feed_root(&mut b, end("a"));
    assert_eq!(
        root.children,
        vec![
            Xml::CharacterNode("text".to_string()),
            Xml::CDATANode("raw".to_string()),
            Xml::CommentNode("note".to_string()),
            Xml::PINode("target".to_string()),
        ]
    );
}

#[test]
fn processing_instruction_outside_root_is_dropped() {
    let mut b = ElementBuilder::new();
    feed_pending(&mut b, Event::PI("early".to_string()));
    feed_pending(&mut b, start("a", vec![]));
    let root = feed_root(&mut b, end("a"));
    assert_eq!(root.children.len(), 0);
}

#[test]
fn upstream_failure_is_wrapped_and_state_kept() {
    let mut b = ElementBuilder::new();
    feed_pending(&mut b, start("a", vec![]));
    let failure = ParserError { msg: "bad token".to_string() };
    let out = b.push_event(Err(failure.clone()));
    assert_eq!(out, Err(BuilderError::Parser(failure)));
    let root = feed_root(&mut b, end("a"));
    assert_eq!(root.name, "a");
}

#[test]
fn builder_starts_with_fixed_bindings() {
    let mut b = ElementBuilder::new();
    feed_pending(&mut b, start("a", vec![]));
    let root = feed_root(&mut b, end("a"));
    assert_eq!(
        root.prefixes.get(&"http://www.w3.org/XML/1998/namespace".to_string()),
        Some(&"xml".to_string())
    );
    assert_eq!(
        root.prefixes.get(&"http://www.w3.org/2000/xmlns/".to_string()),
        Some(&"xmlns".to_string())
    );
    assert_eq!(root.prefixes.get(&"urn:unbound".to_string()), None);
}

#[test]
fn define_prefix_applies_to_elements_created_afterward() {
    let mut b = ElementBuilder::new();
    feed_pending(&mut b, start("a", vec![]));
    b.define_prefix("q", "urn:q");
    feed_pending(&mut b, start("b", vec![]));
    feed_pending(&mut b, end("b"));
    let root = feed_root(&mut b, end("a"));
    assert_eq!(root.prefixes.get(&"urn:q".to_string()), None);
    match &root.children[0] {
        Xml::ElementNode(child) => {
            assert_eq!(
                child.prefixes.get(&"urn:q".to_string()),
                Some(&"q".to_string())
            );
        }
        other => panic!("expected an element child, got {:?}", other),
    }
}

#[test]
fn define_prefix_overwrites_earlier_binding() {
    let mut b = ElementBuilder::new();
    b.define_prefix("one", "urn:q");
    b.define_prefix("two", "urn:q");
    feed_pending(&mut b, start("a", vec![]));
    let root = feed_root(&mut b, end("a"));
    assert_eq!(root.prefixes.get(&"urn:q".to_string()), Some(&"two".to_string()));
}

#[test]
fn set_default_ns_applies_to_document() {
    let mut b = ElementBuilder::new();
    b.set_default_ns("urn:d");
    feed_pending(&mut b, start("a", vec![]));
    let root = feed_root(&mut b, end("a"));
    assert_eq!(root.default_ns, Some("urn:d".to_string()));
}

#[test]
fn attributes_are_kept_on_the_element() {
    let mut b = ElementBuilder::new();
    feed_pending(
        &mut b,
        start("a", vec![attr("id", None, "seven"), attr("class", Some("urn:s"), "wide")]),
    );
    let root = feed_root(&mut b, end("a"));
    assert_eq!(root.attributes.len(), 2);
    assert_eq!(root.attributes[0], attr("id", None, "seven"));
    assert_eq!(root.attributes[1], attr("class", Some("urn:s"), "wide"));
}

#[test]
fn mismatch_discards_popped_element() {
    let mut b = ElementBuilder::new();
    feed_pending(&mut b, start("a", vec![]));
    feed_pending(&mut b, start("b", vec![]));
    let out = b.push_event(Ok(end("c")));
    assert_eq!(out, Err(BuilderError::ImproperNesting));
    let root = feed_root(&mut b, end("a"));
    assert_eq!(root.children.len(), 0);
}

#[test]
fn builder_is_reusable_after_a_completed_root() {
    let mut b = ElementBuilder::new();
    feed_pending(&mut b, start("a", vec![]));
    let first = feed_root(&mut b, end("a"));
    assert_eq!(first.name, "a");
    feed_pending(&mut b, start("b", vec![]));
    let second = feed_root(&mut b, end("b"));
    assert_eq!(second.name, "b");
}

#[test]
fn namespaced_pair_completes() {
    let mut b = ElementBuilder::new();
    feed_pending(
        &mut b,
        Event::ElementStart(StartTag {
            name: "a".to_string(),
            ns: Some("urn:one".to_string()),
            prefix: None,
            attributes: vec![],
        }),
    );
    let out = b.push_event(Ok(Event::ElementEnd(EndTag {
        name: "a".to_string(),
        ns: Some("urn:one".to_string()),
        prefix: None,
    })));
    match out {
        Ok(Some(root)) => {
            assert_eq!(root.name, "a");
            assert_eq!(root.ns, Some("urn:one".to_string()));
        }
        other => panic!("expected a completed root, got {:?}", other),
    }
}

#[test]
fn pending_for_every_event_but_the_last() {
    let mut b = ElementBuilder::new();
    let events = vec![
        start("a", vec![]),
        Event::Characters("one".to_string()),
        start("b", vec![]),
        Event::Comment("two".to_string()),
        end("b"),
        Event::PI("three".to_string()),
    ];
    for ev in events {
        feed_pending(&mut b, ev);
    }
    let root = feed_root(&mut b, end("a"));
    assert_eq!(root.children.len(), 3);
    match &root.children[1] {
        Xml::ElementNode(child) => {
            assert_eq!(child.children, vec![Xml::CommentNode("two".to_string())]);
        }
        other => panic!("expected an element child, got {:?}", other),
    }
}

#[test]
fn error_descriptions() {
    assert_eq!(
        BuilderError::ImproperNesting.description(),
        "Elements not properly nested"
    );
    assert_eq!(BuilderError::NoElement.description(), "No elements found");
    let wrapped = BuilderError::Parser(ParserError { msg: "bad token".to_string() });
    assert_eq!(wrapped.description(), "bad token");
}

#[test]
fn upstream_error_converts_into_builder_error() {
    let failure = ParserError { msg: "short read".to_string() };
    let wrapped = BuilderError::from(failure.clone());
    assert_eq!(wrapped, BuilderError::Parser(failure));
}

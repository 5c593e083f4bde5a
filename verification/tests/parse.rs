//! End-to-end behaviour of the deserializer, observed through a recording
//! visitor: which attributes and children are reported, in what order, and on
//! which streams the parse aborts.

use std::cell::RefCell;
use std::rc::Rc;

use simple_wml::de::{AttributeDeserializer, AttributeVisitor, ChildrenVisitor};
use simple_wml::parser::Parser;
use simple_wml::token::Token;
use simple_wml::visitors::{AcceptAllVisitor, PolicyVisitor};

#[derive(Debug, Clone, PartialEq)]
enum Event {
    Attr(Vec<u8>, Vec<u8>),
    Child(Vec<u8>),
}

struct RecAttr {
    log: Rc<RefCell<Vec<Event>>>,
}

struct RecChildren {
    log: Rc<RefCell<Vec<Event>>>,
}

impl AttributeVisitor for RecAttr {
    type ChildrenVisitor = RecChildren;

    fn visit_attribute(&mut self, key: Vec<u8>, value: Vec<u8>) -> Option<()> {
        self.log.borrow_mut().push(Event::Attr(key, value));
        Some(())
    }

    fn start_children(self) -> RecChildren {
        RecChildren { log: self.log }
    }
}

impl ChildrenVisitor for RecChildren {
    type AttributeVisitor = RecAttr;

    fn visit_child(&mut self, open_key: &[u8]) -> Option<RecAttr> {
        self.log.borrow_mut().push(Event::Child(open_key.to_vec()));
        Some(RecAttr { log: Rc::clone(&self.log) })
    }
}

fn attr(key: &str, value: &str) -> Token {
    Token::Attr { key: key.as_bytes().to_vec(), value: value.as_bytes().to_vec() }
}

fn open(key: &str) -> Token {
    Token::Open { open_key: key.as_bytes().to_vec() }
}

fn close(key: &str) -> Token {
    Token::Close { close_key: key.as_bytes().to_vec() }
}

fn ev_attr(key: &str, value: &str) -> Event {
    Event::Attr(key.as_bytes().to_vec(), value.as_bytes().to_vec())
}

fn ev_child(key: &str) -> Event {
    Event::Child(key.as_bytes().to_vec())
}

fn run_recorded(tokens: Vec<Token>) -> (Option<()>, Vec<Event>) {
    let log = Rc::new(RefCell::new(Vec::new()));
    let mut parser = Parser::new(tokens);
    let de = AttributeDeserializer::new();
    let r = de.accept(&mut parser, RecAttr { log: Rc::clone(&log) }, None);
    let events = log.borrow().clone();
    (r, events)
}

#[test]
fn root_attributes_in_order_succeed() {
    let (r, events) = run_recorded(vec![attr("a", "1"), attr("b", "2")]);
    assert_eq!(r, Some(()));
    assert_eq!(events, vec![ev_attr("a", "1"), ev_attr("b", "2")]);
}

#[test]
fn out_of_order_keys_abort_before_second_visit() {
    let (r, events) = run_recorded(vec![attr("b", "2"), attr("a", "1")]);
    assert_eq!(r, None);
    assert_eq!(events, vec![ev_attr("b", "2")]);
}

#[test]
fn duplicate_keys_abort() {
    let (r, events) = run_recorded(vec![attr("a", "1"), attr("a", "2")]);
    assert_eq!(r, None);
    assert_eq!(events, vec![ev_attr("a", "1")]);
}

#[test]
fn child_node_is_visited_in_its_own_scope() {
    let (r, events) = run_recorded(vec![open("x"), attr("k", "v"), close("x")]);
    assert_eq!(r, Some(()));
    assert_eq!(events, vec![ev_child("x"), ev_attr("k", "v")]);
}

#[test]
fn mismatched_close_key_aborts() {
    let (r, events) = run_recorded(vec![open("x"), close("y")]);
    assert_eq!(r, None);
    assert_eq!(events, vec![ev_child("x")]);
}

#[test]
fn attribute_then_child_succeeds() {
    let (r, events) = run_recorded(vec![attr("a", "1"), open("x"), attr("b", "2"), close("x")]);
    assert_eq!(r, Some(()));
    assert_eq!(events, vec![ev_attr("a", "1"), ev_child("x"), ev_attr("b", "2")]);
}

#[test]
fn attribute_at_root_after_child_closes_aborts() {
    let (r, events) = run_recorded(vec![
        attr("a", "1"),
        open("x"),
        attr("b", "2"),
        close("x"),
        attr("c", "3"),
    ]);
    assert_eq!(r, None);
    assert_eq!(events, vec![ev_attr("a", "1"), ev_child("x"), ev_attr("b", "2")]);
}

#[test]
fn empty_stream_succeeds_with_no_visits() {
    let (r, events) = run_recorded(vec![]);
    assert_eq!(r, Some(()));
    assert_eq!(events, vec![]);
}

#[test]
fn close_at_root_aborts() {
    let (r, events) = run_recorded(vec![close("x")]);
    assert_eq!(r, None);
    assert_eq!(events, vec![]);
}

#[test]
fn truncated_stream_aborts() {
    let (r, events) = run_recorded(vec![open("x")]);
    assert_eq!(r, None);
    assert_eq!(events, vec![ev_child("x")]);
}

#[test]
fn truncated_nested_stream_aborts() {
    let (r, events) = run_recorded(vec![open("x"), open("y")]);
    assert_eq!(r, None);
    assert_eq!(events, vec![ev_child("x"), ev_child("y")]);
}

#[test]
fn balanced_nested_children_succeed() {
    let (r, events) = run_recorded(vec![open("x"), open("y"), close("y"), close("x")]);
    assert_eq!(r, Some(()));
    assert_eq!(events, vec![ev_child("x"), ev_child("y")]);
}

#[test]
fn sibling_children_are_visited_in_stream_order() {
    let (r, events) = run_recorded(vec![open("x"), close("x"), open("y"), close("y")]);
    assert_eq!(r, Some(()));
    assert_eq!(events, vec![ev_child("x"), ev_child("y")]);
}

#[test]
fn attribute_after_sibling_child_aborts() {
    let (r, events) = run_recorded(vec![open("x"), close("x"), attr("a", "1")]);
    assert_eq!(r, None);
    assert_eq!(events, vec![ev_child("x")]);
}

#[test]
fn empty_first_attribute_key_aborts() {
    let (r, events) = run_recorded(vec![attr("", "v")]);
    assert_eq!(r, None);
    assert_eq!(events, vec![]);
}

#[test]
fn prefix_key_sorts_before_its_extension() {
    let (r, events) = run_recorded(vec![attr("a", "1"), attr("ab", "2")]);
    assert_eq!(r, Some(()));
    assert_eq!(events, vec![ev_attr("a", "1"), ev_attr("ab", "2")]);
}

#[test]
fn extension_key_before_its_prefix_aborts() {
    let (r, events) = run_recorded(vec![attr("ab", "2"), attr("a", "1")]);
    assert_eq!(r, None);
    assert_eq!(events, vec![ev_attr("ab", "2")]);
}

#[test]
fn repeated_runs_observe_identical_sequences() {
    let make = || {
        vec![
            attr("a", "1"),
            open("x"),
            attr("b", "2"),
            open("y"),
            close("y"),
            close("x"),
            open("z"),
            close("z"),
        ]
    };
    let (r1, events1) = run_recorded(make());
    let (r2, events2) = run_recorded(make());
    assert_eq!(r1, r2);
    assert_eq!(events1, events2);
    assert_eq!(r1, Some(()));
    assert_eq!(
        events1,
        vec![ev_attr("a", "1"), ev_child("x"), ev_attr("b", "2"), ev_child("y"), ev_child("z")]
    );
}

#[test]
fn nested_child_attributes_are_scoped_to_their_node() {
    let (r, events) = run_recorded(vec![
        open("x"),
        attr("a", "1"),
        open("y"),
        attr("b", "2"),
        close("y"),
        close("x"),
    ]);
    assert_eq!(r, Some(()));
    assert_eq!(
        events,
        vec![ev_child("x"), ev_attr("a", "1"), ev_child("y"), ev_attr("b", "2")]
    );
}

#[test]
fn out_of_order_keys_inside_child_abort() {
    let (r, events) = run_recorded(vec![open("x"), attr("b", "2"), attr("a", "1"), close("x")]);
    assert_eq!(r, None);
    assert_eq!(events, vec![ev_child("x"), ev_attr("b", "2")]);
}

#[test]
fn equal_keys_in_different_nodes_are_legal() {
    let (r, events) = run_recorded(vec![
        open("x"),
        attr("k", "1"),
        close("x"),
        open("y"),
        attr("k", "2"),
        close("y"),
    ]);
    assert_eq!(r, Some(()));
    assert_eq!(
        events,
        vec![ev_child("x"), ev_attr("k", "1"), ev_child("y"), ev_attr("k", "2")]
    );
}

#[test]
fn accept_all_visitor_succeeds_on_valid_stream() {
    let mut parser = Parser::new(vec![attr("a", "1"), open("x"), close("x")]);
    let de = AttributeDeserializer::new();
    assert_eq!(de.accept(&mut parser, AcceptAllVisitor::new(), None), Some(()));
}

#[test]
fn visitor_rejecting_attributes_aborts() {
    let mut parser = Parser::new(vec![attr("a", "1")]);
    let de = AttributeDeserializer::new();
    assert_eq!(de.accept(&mut parser, PolicyVisitor::new(false, true), None), None);
}

#[test]
fn visitor_refusing_children_aborts() {
    let mut parser = Parser::new(vec![open("x"), close("x")]);
    let de = AttributeDeserializer::new();
    assert_eq!(de.accept(&mut parser, PolicyVisitor::new(true, false), None), None);
}

#[test]
fn rejecting_visitor_does_not_fail_empty_stream() {
    let mut parser = Parser::new(vec![]);
    let de = AttributeDeserializer::new();
    assert_eq!(de.accept(&mut parser, PolicyVisitor::new(false, false), None), Some(()));
}

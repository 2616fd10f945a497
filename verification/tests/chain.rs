//! Tests for the causal-chain cursor: forward and backward iteration,
//! length, materialization, and the empty default chain.

use reporter::Chain;
use reporter::ErrorObj;

fn three_causes() -> ErrorObj {
    let c = ErrorObj::new("C".to_string());
    let b = ErrorObj::with_source("B".to_string(), c);
    ErrorObj::with_source("A".to_string(), b)
}

#[test]
fn forward_iteration_yields_all_in_order() {
    let a = three_causes();
    let mut chain = Chain::new(&a);
    assert_eq!(chain.len(), 3);
    assert_eq!(chain.next().unwrap().message, "A");
    assert_eq!(chain.len(), 2);
    assert_eq!(chain.next().unwrap().message, "B");
    assert_eq!(chain.len(), 1);
    assert_eq!(chain.next().unwrap().message, "C");
    assert_eq!(chain.len(), 0);
    assert!(chain.next().is_none());
    assert_eq!(chain.len(), 0);
}

#[test]
fn forward_then_reverse_consistency() {
    let a = three_causes();

    let mut forward: Vec<String> = Vec::new();
    let mut chain = Chain::new(&a);
    while let Some(e) = chain.next() {
        forward.push(e.message.clone());
    }

    let mut backward: Vec<String> = Vec::new();
    let mut chain = Chain::new(&a);
    while let Some(e) = chain.next_back() {
        backward.push(e.message.clone());
    }
    backward.reverse();

    assert_eq!(forward, backward);
}

#[test]
fn len_is_idempotent() {
    let a = three_causes();
    let mut chain = Chain::new(&a);
    assert_eq!(chain.len(), 3);
    assert_eq!(chain.len(), 3);
    assert_eq!(chain.len(), 3);
    assert_eq!(chain.next().unwrap().message, "A");
    assert_eq!(chain.len(), 2);
    assert_eq!(chain.len(), 2);
    assert_eq!(chain.next().unwrap().message, "B");
    assert_eq!(chain.next().unwrap().message, "C");
    assert!(chain.next().is_none());
}

#[test]
fn size_hint_is_exact() {
    let a = three_causes();
    let chain = Chain::new(&a);
    assert_eq!(chain.size_hint(), (3, Some(3)));
}

#[test]
fn mixed_directions_share_one_sequence() {
    let a = three_causes();
    let mut chain = Chain::new(&a);
    assert_eq!(chain.next().unwrap().message, "A");
    assert_eq!(chain.next_back().unwrap().message, "C");
    assert_eq!(chain.len(), 1);
    assert_eq!(chain.next().unwrap().message, "B");
    assert!(chain.next().is_none());
    assert!(chain.next_back().is_none());
}

#[test]
fn single_error_chain() {
    let only = ErrorObj::new("alone".to_string());
    let mut chain = Chain::new(&only);
    assert_eq!(chain.len(), 1);
    assert_eq!(chain.next().unwrap().message, "alone");
    assert!(chain.next().is_none());
}

#[test]
fn default_chain_is_empty_and_buffered() {
    let mut chain = Chain::default();
    assert_eq!(chain.len(), 0);
    assert!(chain.next().is_none());
    assert!(chain.next_back().is_none());
    assert_eq!(chain.size_hint(), (0, Some(0)));
}

#[test]
fn restartable_chains_yield_same_sequence() {
    let a = three_causes();
    let mut first: Vec<String> = Vec::new();
    let mut chain = Chain::new(&a);
    while let Some(e) = chain.next() {
        first.push(e.message.clone());
    }
    let mut second: Vec<String> = Vec::new();
    let mut chain = Chain::new(&a);
    while let Some(e) = chain.next() {
        second.push(e.message.clone());
    }
    assert_eq!(first, second);
    assert_eq!(first, vec!["A".to_string(), "B".to_string(), "C".to_string()]);
}

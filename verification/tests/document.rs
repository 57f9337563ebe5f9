use nacos_sync::document::{DocumentNode, Mapping, Scalar};
use nacos_sync::equality::{same_mapping, same_node, same_scalar};
use nacos_sync::error::ErrorKind;

fn integer(value: i64) -> DocumentNode {
    DocumentNode::Scalar(Scalar::Integer(value))
}

fn text(words: &str) -> DocumentNode {
    DocumentNode::Scalar(Scalar::Text(words.to_string()))
}

#[test]
fn new_mapping_is_empty() {
    let mapping = Mapping::new();
    assert_eq!(mapping.len(), 0);
    assert!(mapping.is_empty());
    assert!(mapping.get("a").is_none());
    assert!(!mapping.contains_key("a"));
    assert!(mapping.entry(0).is_none());
    assert_eq!(mapping.position("a"), None);
}

#[test]
fn insert_appends_new_keys() {
    let mut mapping = Mapping::new();
    mapping.insert("a".to_string(), integer(1));
    mapping.insert("b".to_string(), integer(2));
    assert_eq!(mapping.len(), 2);
    assert!(!mapping.is_empty());
    assert_eq!(mapping.position("a"), Some(0));
    assert_eq!(mapping.position("b"), Some(1));
    assert_eq!(mapping.get("b").unwrap().as_i64().unwrap(), 2);
    assert!(mapping.contains_key("a"));
    assert!(!mapping.contains_key("c"));
    let (key, value) = mapping.entry(1).unwrap();
    assert_eq!(key, "b");
    assert_eq!(value.as_i64().unwrap(), 2);
}

#[test]
fn insert_replaces_in_place() {
    let mut mapping = Mapping::new();
    mapping.insert("a".to_string(), integer(1));
    mapping.insert("b".to_string(), integer(2));
    mapping.insert("a".to_string(), integer(3));
    assert_eq!(mapping.len(), 2);
    assert_eq!(mapping.position("a"), Some(0));
    assert_eq!(mapping.get("a").unwrap().as_i64().unwrap(), 3);
    assert_eq!(mapping.get("b").unwrap().as_i64().unwrap(), 2);
}

#[test]
fn typed_accessors_give_the_value() {
    let mut mapping = Mapping::new();
    mapping.insert("k".to_string(), integer(7));
    let node = DocumentNode::Mapping(mapping);
    assert_eq!(node.as_mapping().unwrap().len(), 1);
    let sequence = DocumentNode::Sequence(vec![integer(1), text("x")]);
    assert_eq!(sequence.as_sequence().unwrap().len(), 2);
    assert_eq!(text("hello").as_str().unwrap(), "hello");
    assert_eq!(integer(-5).as_i64().unwrap(), -5);
}

#[test]
fn typed_accessors_signal_a_mismatch() {
    let error = integer(1).as_mapping().unwrap_err();
    assert_eq!(error.kind, ErrorKind::TypeMismatch);
    assert_eq!(error.detail, "mapping");
    let error = integer(1).as_sequence().unwrap_err();
    assert_eq!(error.kind, ErrorKind::TypeMismatch);
    assert_eq!(error.detail, "sequence");
    let error = integer(1).as_str().unwrap_err();
    assert_eq!(error.kind, ErrorKind::TypeMismatch);
    assert_eq!(error.detail, "text");
    let error = text("1").as_i64().unwrap_err();
    assert_eq!(error.kind, ErrorKind::TypeMismatch);
    assert_eq!(error.detail, "integer");
    let number = DocumentNode::Scalar(Scalar::Number("1.5".to_string()));
    assert_eq!(number.as_i64().unwrap_err().kind, ErrorKind::TypeMismatch);
    assert_eq!(DocumentNode::Mapping(Mapping::new()).as_str().unwrap_err().kind, ErrorKind::TypeMismatch);
}

#[test]
fn clone_is_deep() {
    let mut inner = Mapping::new();
    inner.insert("x".to_string(), DocumentNode::Sequence(vec![integer(1), text("two")]));
    let mut outer = Mapping::new();
    outer.insert("inner".to_string(), DocumentNode::Mapping(inner));
    outer.insert("flag".to_string(), DocumentNode::Scalar(Scalar::Bool(true)));
    let first_tree = DocumentNode::Mapping(outer);
    let mut copy = first_tree.clone();
    assert_eq!(copy, first_tree);
    if let DocumentNode::Mapping(fields) = &mut copy {
        fields.insert("flag".to_string(), DocumentNode::Scalar(Scalar::Bool(false)));
    }
    assert_ne!(copy, first_tree);
    assert_eq!(
        first_tree.as_mapping().unwrap().get("flag").unwrap(),
        &DocumentNode::Scalar(Scalar::Bool(true))
    );
}

#[test]
fn equality_ignores_the_order_of_keys() {
    let mut left = Mapping::new();
    left.insert("a".to_string(), integer(1));
    left.insert("b".to_string(), integer(2));
    let mut right = Mapping::new();
    right.insert("b".to_string(), integer(2));
    right.insert("a".to_string(), integer(1));
    assert!(same_mapping(&left, &right));
    assert_eq!(left, right);
    right.insert("a".to_string(), integer(9));
    assert!(!same_mapping(&left, &right));
    assert_ne!(left, right);
}

#[test]
fn equality_keeps_the_order_of_sequences() {
    let left = DocumentNode::Sequence(vec![integer(1), integer(2)]);
    let right = DocumentNode::Sequence(vec![integer(2), integer(1)]);
    assert!(!same_node(&left, &right));
    assert!(same_node(&left, &left.clone()));
    assert!(!same_node(&left, &DocumentNode::Sequence(vec![integer(1)])));
}

#[test]
fn equality_tells_the_shapes_apart() {
    assert!(!same_node(&integer(1), &text("1")));
    assert!(!same_node(&DocumentNode::Mapping(Mapping::new()), &DocumentNode::Sequence(vec![])));
    assert!(same_scalar(&Scalar::Null, &Scalar::Null));
    assert!(!same_scalar(&Scalar::Null, &Scalar::Bool(false)));
    assert!(same_scalar(&Scalar::Number("1.5".to_string()), &Scalar::Number("1.5".to_string())));
    assert!(!same_scalar(&Scalar::Number("1.5".to_string()), &Scalar::Text("1.5".to_string())));
    let mut one = Mapping::new();
    one.insert("a".to_string(), integer(1));
    let mut other = Mapping::new();
    other.insert("b".to_string(), integer(1));
    assert!(!same_mapping(&one, &other));
    assert!(!same_mapping(&one, &Mapping::new()));
}

//! Reading and writing documents as YAML text.

use crate::document::{Doc, DocumentNode, Mapping, Scalar};
use crate::error::{ErrorKind, SyncError, SyncErrorView};
use serde_yaml::Value;
use vstd::prelude::*;

verus! {

/// `serde_yaml::Value`, the tree that `serde_yaml` reads and writes. Nothing
/// is said of what it holds.
#[verifier::external_type_specification]
#[verifier::external_body]
pub struct ExYamlValue(serde_yaml::Value);

/// What `serde_yaml::from_str` makes of a text that is read as a mapping:
/// `Err` with its words where it refuses the text; `Ok(None)` where it reads a
/// mapping that holds a tag or a key that is no text; else the mapping.
pub uninterp spec fn yaml_parsed(text: Seq<char>) -> Result<Option<Doc>, Seq<char>>;

/// What `serde_yaml::to_string` writes for a tree: `Ok(None)` where the tree
/// holds a number whose text is no YAML number, `Err` with the words of
/// `serde_yaml` where it refuses to write, else the text.
pub uninterp spec fn yaml_rendered(tree: Doc) -> Result<Option<Seq<char>>, Seq<char>>;

/// What a parse handed back, as a mathematical value.
pub open spec fn parsed_view(parsed: Result<Option<DocumentNode>, String>) -> Result<
    Option<Doc>,
    Seq<char>,
> {
    match parsed {
        Ok(Some(node)) => Ok(Some(node@)),
        Ok(None) => Ok(None),
        Err(words) => Err(words@),
    }
}

/// What a rendering handed back, as a mathematical value.
pub open spec fn rendered_view(rendered: Result<Option<String>, String>) -> Result<
    Option<Seq<char>>,
    Seq<char>,
> {
    match rendered {
        Ok(Some(text)) => Ok(Some(text@)),
        Ok(None) => Ok(None),
        Err(words) => Err(words@),
    }
}

/// Turns a scalar of `serde_yaml` into a scalar, variant by variant: an
/// integer that `as_i64` gives stays an integer, any other number becomes the
/// text that `serde_yaml` displays for it. `None` for a value that is no scalar.
#[verifier::external_body]
fn scalar_from_yaml(value: &Value) -> (scalar: Option<Scalar>) {
    match value {
        Value::Null => Some(Scalar::Null),
        Value::Bool(flag) => Some(Scalar::Bool(*flag)),
        Value::Number(n) => Some(
            n.as_i64().map_or_else(|| Scalar::Number(n.to_string()), Scalar::Integer)),
        Value::String(text) => Some(Scalar::Text(text.clone())),
        _ => None,
    }
}

/// Turns a value of `serde_yaml` into a node, variant by variant. `None`
/// where the value holds a tag or a mapping key that is no text. A mapping is
/// filled entry by entry with `Mapping::insert`; a mapping of `serde_yaml`
/// holds no key twice, so each of its entries becomes one of the node's.
#[verifier::external_body]
fn node_from_yaml(value: &Value) -> (node: Option<DocumentNode>) {
    Some(match value {
        Value::Sequence(items) => DocumentNode::Sequence(
            items.iter().map(node_from_yaml).collect::<Option<_>>()?),
        Value::Mapping(fields) => DocumentNode::Mapping(fields.iter().try_fold(
            Mapping::new(),
            |mut kept, (key, below)| {
                kept.insert(key.as_str()?.to_owned(), node_from_yaml(below)?);
                Some(kept)
            },
        )?),
        Value::Tagged(_) => return None,
        scalar => DocumentNode::Scalar(scalar_from_yaml(scalar)?),
    })
}

/// Turns a scalar into a value of `serde_yaml`, variant by variant; a number
/// held as text is read back by `serde_yaml`'s `FromStr` for its numbers.
/// `None` where such a text is no number to `serde_yaml`.
#[verifier::external_body]
fn scalar_to_yaml(scalar: &Scalar) -> (value: Option<Value>) {
    Some(match scalar {
        Scalar::Null => Value::Null,
        Scalar::Bool(flag) => Value::Bool(*flag),
        Scalar::Integer(i) => Value::Number((*i).into()),
        Scalar::Number(text) => Value::Number(text.parse().ok()?),
        Scalar::Text(text) => Value::String(text.clone()),
    })
}

/// Turns a node into a value of `serde_yaml`, variant by variant. `None`
/// where the node holds a number whose text is no number to `serde_yaml`.
#[verifier::external_body]
fn node_to_yaml(node: &DocumentNode) -> (value: Option<Value>) {
    match node {
        DocumentNode::Scalar(scalar) => scalar_to_yaml(scalar),
        DocumentNode::Sequence(items) => Some(Value::Sequence(
            items.iter().map(node_to_yaml).collect::<Option<_>>()?)),
        DocumentNode::Mapping(fields) => Some(Value::Mapping((0..fields.len()).map(
            |at| fields.entry(at).and_then(
                |(key, below)| Some((Value::String(key.clone()), node_to_yaml(below)?)),
            ),
        ).collect::<Option<_>>()?)),
    }
}

/// Calls `serde_yaml::from_str` for a `serde_yaml::Mapping`. The result is
/// the function's own, turned into a node by `node_from_yaml`; an error is
/// handed on as the text that it displays.
#[verifier::external_body]
fn yaml_parse(text: &str) -> (parsed: Result<Option<DocumentNode>, String>)
    ensures
        parsed_view(parsed) == yaml_parsed(text@),
{
    match serde_yaml::from_str::<serde_yaml::Mapping>(text) {
        Ok(fields) => Ok(node_from_yaml(&Value::Mapping(fields))),
        Err(error) => Err(error.to_string()),
    }
}

/// Calls `serde_yaml::to_string` on the node, turned into a value of
/// `serde_yaml` by `node_to_yaml`; an error is handed on as the text that it
/// displays.
#[verifier::external_body]
fn yaml_render(node: &DocumentNode) -> (rendered: Result<Option<String>, String>)
    ensures
        rendered_view(rendered) == yaml_rendered(node@),
{
    match node_to_yaml(node) {
        Some(value) => serde_yaml::to_string(&value).map(Some).map_err(|error| error.to_string()),
        None => Ok(None),
    }
}

/// The words of the error for a document whose root is no mapping.
pub open spec fn root_words() -> Seq<char> {
    "the document is not a mapping"@
}

/// The words of the error for a document that holds a tag, or a key that is
/// no text.
pub open spec fn shape_words() -> Seq<char> {
    "the document holds a tag or a key that is not a text"@
}

/// The words of the error for a document that holds a number whose text is
/// no number.
pub open spec fn number_words() -> Seq<char> {
    "the document holds a number that cannot be written"@
}

/// What a document or the error that stood in its place is, as a
/// mathematical value.
pub open spec fn document_view(document: Result<Mapping, SyncError>) -> Result<
    Seq<(Seq<char>, Doc)>,
    SyncErrorView,
> {
    match document {
        Ok(fields) => Ok(fields@),
        Err(error) => Err(error@),
    }
}

/// What a text or the error that stood in its place is, as a mathematical
/// value.
pub open spec fn text_view(text: Result<String, SyncError>) -> Result<Seq<char>, SyncErrorView> {
    match text {
        Ok(text) => Ok(text@),
        Err(error) => Err(error@),
    }
}

/// The document that a parse stands for: the mapping that was read, or a
/// parse error with the words of the parser, or with words of this library
/// where the tree that was read is no document.
pub open spec fn document_of(parsed: Result<Option<Doc>, Seq<char>>) -> Result<
    Seq<(Seq<char>, Doc)>,
    SyncErrorView,
> {
    match parsed {
        Ok(Some(Doc::Mapping(fields))) => Ok(fields),
        Ok(Some(_)) => Err(SyncErrorView { kind: ErrorKind::ParseError, detail: root_words() }),
        Ok(None) => Err(SyncErrorView { kind: ErrorKind::ParseError, detail: shape_words() }),
        Err(words) => Err(SyncErrorView { kind: ErrorKind::ParseError, detail: words }),
    }
}

/// The text that a rendering stands for: the text that was written, or a
/// serialization error.
pub open spec fn text_of(rendered: Result<Option<Seq<char>>, Seq<char>>) -> Result<
    Seq<char>,
    SyncErrorView,
> {
    match rendered {
        Ok(Some(text)) => Ok(text),
        Ok(None) => Err(
            SyncErrorView { kind: ErrorKind::SerializeFailure, detail: number_words() },
        ),
        Err(words) => Err(SyncErrorView { kind: ErrorKind::SerializeFailure, detail: words }),
    }
}

/// Makes a document of what a parse handed back.
pub fn document_from(parsed: Result<Option<DocumentNode>, String>) -> (document: Result<
    Mapping,
    SyncError,
>)
    ensures
        document_view(document) == document_of(parsed_view(parsed)),
{
    match parsed {
        Ok(Some(DocumentNode::Mapping(fields))) => Ok(fields),
        Ok(Some(_)) => Err(SyncError::new(ErrorKind::ParseError, "the document is not a mapping")),
        Ok(None) => Err(
            SyncError::new(
                ErrorKind::ParseError,
                "the document holds a tag or a key that is not a text",
            ),
        ),
        Err(words) => Err(SyncError { kind: ErrorKind::ParseError, detail: words }),
    }
}

/// Makes a text of what a rendering handed back.
pub fn text_from(rendered: Result<Option<String>, String>) -> (text: Result<String, SyncError>)
    ensures
        text_view(text) == text_of(rendered_view(rendered)),
{
    match rendered {
        Ok(Some(text)) => Ok(text),
        Ok(None) => Err(
            SyncError::new(
                ErrorKind::SerializeFailure,
                "the document holds a number that cannot be written",
            ),
        ),
        Err(words) => Err(SyncError { kind: ErrorKind::SerializeFailure, detail: words }),
    }
}

/// Reads a document from YAML text. The text must hold a mapping whose keys,
/// at every depth, are texts, and no tag; any other text is a parse error.
pub fn parse_document(text: &str) -> (document: Result<Mapping, SyncError>)
    ensures
        document_view(document) == document_of(yaml_parsed(text@)),
{
    document_from(yaml_parse(text))
}

/// Writes a tree as YAML text.
pub fn render_document(node: &DocumentNode) -> (text: Result<String, SyncError>)
    ensures
        text_view(text) == text_of(yaml_rendered(node@)),
{
    text_from(yaml_render(node))
}

} // verus!

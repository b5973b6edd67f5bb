//! The YAML parser used for metadata blocks, behind trusted declarations.
//!
//! A parsed node is described by [`Node`], the part of a YAML value that this
//! library reads: text scalars, sequences, and the string-keyed entries of a
//! mapping. Every other kind of node is [`Node::Other`].

use vstd::prelude::*;
use std::vec::IntoIter;
use yaml_rust::{Event, Yaml, YamlLoader, ScanError};
use yaml_rust::parser::Parser;

verus! {

#[verifier::external_type_specification]
#[verifier::external_body]
pub struct ExYaml(Yaml);

#[verifier::external_type_specification]
#[verifier::external_body]
pub struct ExScanError(ScanError);

#[verifier::external_type_specification]
#[verifier::external_body]
#[verifier::reject_recursive_types(T)]
pub struct ExParser<T>(Parser<T>);

/// The shape of a YAML node, as far as this library reads it.
pub ghost enum Node {
    /// A string scalar.
    Text(Seq<char>),
    /// A sequence, in document order.
    Sequence(Seq<Node>),
    /// A mapping: the value stored under each string key.
    Mapping(Map<Seq<char>, Node>),
    /// Any other node: numbers, booleans, null, aliases, and the placeholder
    /// that a failed lookup returns.
    Other,
}

/// What a `Yaml` value holds.
pub uninterp spec fn node_of(y: Yaml) -> Node;

/// The documents that the YAML loader reads from a text, or `None` where the
/// text is not valid YAML.
pub uninterp spec fn parse_yaml(text: Seq<char>) -> Option<Seq<Node>>;

/// The value stored under the string key `key`, or `Other` where the node is
/// no mapping or holds no such key.
pub open spec fn field_of(n: Node, key: Seq<char>) -> Node {
    match n {
        Node::Mapping(m) => if m.contains_key(key) { m[key] } else { Node::Other },
        _ => Node::Other,
    }
}

/// An event of the YAML parser's stream, without its payload.
#[derive(Debug, PartialEq, Eq, Structural)]
pub enum YamlEvent {
    Nothing,
    StreamStart,
    StreamEnd,
    DocumentStart,
    DocumentEnd,
    Alias,
    Scalar,
    SequenceStart,
    SequenceEnd,
    MappingStart,
    MappingEnd,
}

/// The results of successive `Parser::next` calls on a parser over a text, up
/// to and including the first `StreamEnd`, or the first error (`None`), which
/// ends the stream.
pub uninterp spec fn yaml_events(text: Seq<char>) -> Seq<Option<YamlEvent>>;

/// What a parser reads, and how many events it has handed out.
pub uninterp spec fn parser_view(p: Parser<IntoIter<char>>) -> (Seq<char>, nat);

/// How an event changes the number of open sequences and mappings.
pub open spec fn depth_change(e: Option<YamlEvent>) -> int {
    match e {
        Some(YamlEvent::SequenceStart) | Some(YamlEvent::MappingStart) => 1,
        Some(YamlEvent::SequenceEnd) | Some(YamlEvent::MappingEnd) => -1,
        _ => 0,
    }
}

/// The number of sequences and mappings open after a run of events.
pub open spec fn depth_after(evs: Seq<Option<YamlEvent>>) -> nat
    decreases evs.len(),
{
    if evs.len() == 0 {
        0
    } else {
        let d = depth_after(evs.drop_last()) + depth_change(evs.last());
        if d < 0 { 0 } else { d as nat }
    }
}

/// The greatest number of sequences and mappings open at once in a run of events.
pub open spec fn peak_depth(evs: Seq<Option<YamlEvent>>) -> nat
    decreases evs.len(),
{
    if evs.len() == 0 {
        0
    } else {
        let p = peak_depth(evs.drop_last());
        let d = depth_after(evs);
        if p < d { d } else { p }
    }
}

/// The deepest nesting of sequences and mappings that a text handed to the
/// loader may reach.
pub const MAX_NESTING_DEPTH: usize = 1000;

/// Relies on `Parser::new`: a parser over the given characters that has handed
/// out no event yet; its stream holds at least one result.
#[verifier::external_body]
pub(crate) fn new_parser(text: &Vec<char>) -> (r: Parser<IntoIter<char>>)
    ensures
        parser_view(r) == (text@, 0nat),
        parser_view(r).1 < yaml_events(parser_view(r).0).len(),
{
    Parser::new(text.clone().into_iter())
}

/// Relies on `Parser::next`: the next event of the stream, or the `ScanError`
/// that ends it. The stream ends at its first `StreamEnd` or error.
#[verifier::external_body]
pub(crate) fn next_event(p: &mut Parser<IntoIter<char>>) -> (r: Result<YamlEvent, ScanError>)
    requires
        parser_view(*old(p)).1 < yaml_events(parser_view(*old(p)).0).len(),
    ensures
        parser_view(*final(p)).0 == parser_view(*old(p)).0,
        parser_view(*final(p)).1 == parser_view(*old(p)).1 + 1,
        match r {
            Ok(e) => yaml_events(parser_view(*old(p)).0)[parser_view(*old(p)).1 as int] == Some(e),
            Err(_) => yaml_events(parser_view(*old(p)).0)[parser_view(*old(p)).1 as int] is None,
        },
        (r is Err || r == Ok::<YamlEvent, ScanError>(YamlEvent::StreamEnd))
            <==> parser_view(*final(p)).1 == yaml_events(parser_view(*old(p)).0).len(),
{
    let (ev, _) = p.next()?;
    Ok(match ev {
        Event::Nothing => YamlEvent::Nothing,
        Event::StreamStart => YamlEvent::StreamStart,
        Event::StreamEnd => YamlEvent::StreamEnd,
        Event::DocumentStart => YamlEvent::DocumentStart,
        Event::DocumentEnd => YamlEvent::DocumentEnd,
        Event::Alias(_) => YamlEvent::Alias,
        Event::Scalar(..) => YamlEvent::Scalar,
        Event::SequenceStart(_) => YamlEvent::SequenceStart,
        Event::SequenceEnd => YamlEvent::SequenceEnd,
        Event::MappingStart(_) => YamlEvent::MappingStart,
        Event::MappingEnd => YamlEvent::MappingEnd,
    })
}

/// Relies on `YamlLoader::load_from_str`: it reads the YAML documents of a
/// text, and fails with a `ScanError` where the text is not valid YAML.
/// The loader reads the same event stream as `Parser::next` and descends by
/// recursion, two calls for each open sequence or mapping; the bound on the
/// stream's nesting keeps that recursion well within a thread's stack.
#[verifier::external_body]
pub(crate) fn load_documents(text: &Vec<char>) -> (r: Result<Vec<Yaml>, ScanError>)
    requires
        peak_depth(yaml_events(text@)) <= MAX_NESTING_DEPTH,
    ensures
        match r {
            Ok(docs) => parse_yaml(text@) == Some(docs@.map_values(|d: Yaml| node_of(d))),
            Err(_) => parse_yaml(text@) is None,
        },
{
    let source: String = text.iter().collect();
    YamlLoader::load_from_str(&source)
}

/// Relies on `Yaml::as_hash`: `Some` exactly for a mapping.
#[verifier::external_body]
pub(crate) fn is_mapping(y: &Yaml) -> (r: bool)
    ensures
        r == (node_of(*y) is Mapping),
{
    y.as_hash().is_some()
}

/// Relies on `Yaml`'s `Index<&str>`: the value under the string key, or
/// `Yaml::BadValue` where there is none or `y` is no mapping.
#[verifier::external_body]
pub(crate) fn field<'a>(y: &'a Yaml, key: &str) -> (r: &'a Yaml)
    ensures
        node_of(*r) == field_of(node_of(*y), key@),
{
    &y[key]
}

/// Relies on `Yaml::as_vec`: the elements of a sequence, `None` for any other node.
#[verifier::external_body]
pub(crate) fn as_sequence(y: &Yaml) -> (r: Option<&Vec<Yaml>>)
    ensures
        match node_of(*y) {
            Node::Sequence(items) => r is Some && r->0@.map_values(|d: Yaml| node_of(d)) == items,
            _ => r is None,
        },
{
    y.as_vec()
}

/// Relies on `Yaml::as_str`: the text of a string scalar, `None` for any other node.
#[verifier::external_body]
pub(crate) fn as_text(y: &Yaml) -> (r: Option<String>)
    ensures
        match node_of(*y) {
            Node::Text(s) => r is Some && r->0@ == s,
            _ => r is None,
        },
{
    y.as_str().map(|s| s.to_string())
}

} // verus!

//! The fields of a metadata block that test assembly uses: the support files
//! that a test asks for, followed by the two bootstrap files.

use vstd::prelude::*;
use vstd::string::StringExecFns;
use yaml_rust::Yaml;
use crate::yaml::{Node, node_of, field_of, is_mapping, field, as_sequence, as_text};

verus! {

broadcast use vstd::string::group_string_axioms;

/// The key under which a test lists its support files.
pub open spec fn includes_key() -> Seq<char> {
    seq!['i', 'n', 'c', 'l', 'u', 'd', 'e', 's']
}

/// The file of assertion helpers, always loaded next to last.
pub open spec fn assert_file() -> Seq<char> {
    seq!['a', 's', 's', 'e', 'r', 't', '.', 'j', 's']
}

/// The file of harness support, always loaded last.
pub open spec fn sta_file() -> Seq<char> {
    seq!['s', 't', 'a', '.', 'j', 's']
}

/// The text of a string node; the empty text for any other node.
pub open spec fn text_or_empty(n: Node) -> Seq<char> {
    match n {
        Node::Text(s) => s,
        _ => Seq::empty(),
    }
}

/// The names listed under `includes` in a mapping: one per element of the
/// sequence, empty for an element that is not a string; none where the key is
/// absent or its value is no sequence. `None` where the document is no mapping.
pub open spec fn declared_includes_of(doc: Node) -> Option<Seq<Seq<char>>> {
    match doc {
        Node::Mapping(_) => Some(
            match field_of(doc, includes_key()) {
                Node::Sequence(items) => items.map_values(|i: Node| text_or_empty(i)),
                _ => Seq::empty(),
            },
        ),
        _ => None,
    }
}

/// The names to load for a document: its declared names, then the two
/// bootstrap files. `None` where the document is no mapping.
pub open spec fn resolved_includes_of(doc: Node) -> Option<Seq<Seq<char>>> {
    match declared_includes_of(doc) {
        Some(names) => Some(names + seq![assert_file(), sta_file()]),
        None => None,
    }
}

/// The views of a list of strings.
pub open spec fn views(v: Seq<String>) -> Seq<Seq<char>> {
    v.map_values(|s: String| s@)
}

/// The names listed under `includes` in a metadata document; see
/// [`declared_includes_of`].
pub fn declared_includes(doc: &Yaml) -> (r: Option<Vec<String>>)
    ensures
        match r {
            Some(v) => declared_includes_of(node_of(*doc)) == Some(views(v@)),
            None => declared_includes_of(node_of(*doc)) is None,
        },
{
    if !is_mapping(doc) {
        return None;
    }
    let key = "includes";
    proof {
        reveal_strlit("includes");
        assert(key@ =~= includes_key());
    }
    let value = field(doc, key);
    let mut names: Vec<String> = Vec::new();
    match as_sequence(value) {
        None => {
            assert(views(names@) =~= Seq::<Seq<char>>::empty());
        },
        Some(items) => {
            let ghost nodes = items@.map_values(|d: Yaml| node_of(d));
            let mut i: usize = 0;
            while i < items.len()
                invariant
                    i <= items.len(),
                    nodes == items@.map_values(|d: Yaml| node_of(d)),
                    views(names@) == nodes.take(i as int).map_values(|n: Node| text_or_empty(n)),
                decreases items.len() - i,
            {
                let ghost before = names@;
                let name = match as_text(&items[i]) {
                    Some(s) => s,
                    None => String::new(),
                };
                assert(name@ == text_or_empty(nodes[i as int]));
                names.push(name);
                assert(names@ == before.push(name));
                assert(views(names@) =~= views(before).push(name@));
                i = i + 1;
                assert(views(names@) =~= nodes.take(i as int).map_values(|n: Node| text_or_empty(n)));
            }
            assert(nodes.take(i as int) =~= nodes);
        },
    }
    Some(names)
}


/// The names of the files to load before a test, in order: those listed
/// under `includes`, then `assert.js` and `sta.js`. `None` where the document
/// is no mapping, in which case the test is skipped.
pub fn resolved_includes(doc: &Yaml) -> (r: Option<Vec<String>>)
    ensures
        match r {
            Some(v) => resolved_includes_of(node_of(*doc)) == Some(views(v@)),
            None => resolved_includes_of(node_of(*doc)) is None,
        },
{
    match declared_includes(doc) {
        None => None,
        Some(mut names) => {
            let ghost declared = names@;
            let a = String::from_str("assert.js");
            let b = String::from_str("sta.js");
            proof {
                reveal_strlit("assert.js");
                reveal_strlit("sta.js");
                assert(a@ =~= assert_file());
                assert(b@ =~= sta_file());
            }
            names.push(a);
            names.push(b);
            assert(views(names@) =~= views(declared) + seq![assert_file(), sta_file()]);
            Some(names)
        },
    }
}

} // verus!

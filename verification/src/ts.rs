//! The trusted boundary to the grammar-based parser. Each wrapper makes one
//! call into the parser crate and converts its result to a plain value; the
//! tree stays opaque here, and the flattener in `parse` checks everything it
//! records about it at runtime, so no contract in this file needs to promise
//! anything about parse results.

use vstd::prelude::*;

use vstd::utf8::{encode_utf8, valid_utf8};

verus! {

#[verifier::external_type_specification]
#[verifier::external_body]
pub struct ExLanguage(tree_sitter::Language);

#[verifier::external_type_specification]
#[verifier::external_body]
pub struct ExParser(tree_sitter::Parser);

#[verifier::external_type_specification]
#[verifier::external_body]
pub struct ExTree(tree_sitter::Tree);

#[verifier::external_type_specification]
#[verifier::external_body]
pub struct ExNode<'tree>(tree_sitter::Node<'tree>);

/// Whether the C++ grammar yields a tree for this buffer. With no
/// cancellation or timeout set, the parse is a function of the buffer and
/// the fixed grammar alone.
pub uninterp spec fn cpp_parse_succeeds(code: Seq<u8>) -> bool;

/// Relies on tree_sitter::Parser::new, Parser::set_language with
/// tree_sitter::Language::new over tree_sitter_cpp's grammar constant, and
/// Parser::parse on the byte buffer with no previous tree. A version
/// mismatch between grammar and parser, fixed at build time, and a failed
/// parse both report `None`.
#[verifier::external_body]
pub(crate) fn parse_cpp(text: &Vec<u8>) -> (r: Option<tree_sitter::Tree>)
    ensures
        r is Some <==> cpp_parse_succeeds(text@),
{
    let mut parser = tree_sitter::Parser::new();
    let lang = tree_sitter::Language::new(tree_sitter_cpp::LANGUAGE);
    if parser.set_language(&lang).is_err() {
        return None;
    }
    parser.parse(text.as_slice(), None)
}

/// Relies on tree_sitter::Tree::root_node.
#[verifier::external_body]
pub(crate) fn tree_root<'t>(t: &'t tree_sitter::Tree) -> tree_sitter::Node<'t> {
    t.root_node()
}

/// Relies on tree_sitter::Node being plain position data: copies the handle.
#[verifier::external_body]
pub(crate) fn node_copy<'t>(n: &tree_sitter::Node<'t>) -> tree_sitter::Node<'t> {
    *n
}

/// Relies on tree_sitter::Node::kind: the grammar production's name.
#[verifier::external_body]
pub(crate) fn node_kind(n: &tree_sitter::Node) -> String {
    n.kind().to_owned()
}

/// Relies on tree_sitter::Node::start_byte.
#[verifier::external_body]
pub(crate) fn node_start_byte(n: &tree_sitter::Node) -> usize {
    n.start_byte()
}

/// Relies on tree_sitter::Node::end_byte.
#[verifier::external_body]
pub(crate) fn node_end_byte(n: &tree_sitter::Node) -> usize {
    n.end_byte()
}

/// Relies on tree_sitter::Node::start_position: the 0-based row.
#[verifier::external_body]
pub(crate) fn node_row(n: &tree_sitter::Node) -> usize {
    n.start_position().row
}

/// Relies on tree_sitter::Node::child_count.
#[verifier::external_body]
pub(crate) fn node_child_count(n: &tree_sitter::Node) -> u32 {
    n.child_count()
}

/// Relies on tree_sitter::Node::child.
#[verifier::external_body]
pub(crate) fn node_child<'t>(n: &tree_sitter::Node<'t>, i: u32) -> Option<tree_sitter::Node<'t>> {
    n.child(i)
}

/// Relies on tree_sitter::Node::field_name_for_child: the grammar field of
/// the i-th child, if it has one.
#[verifier::external_body]
pub(crate) fn node_field_name(n: &tree_sitter::Node, i: u32) -> Option<String> {
    match n.field_name_for_child(i) {
        Some(s) => Some(s.to_owned()),
        None => None,
    }
}

/// Whether the C++ grammar parses this buffer into a tree whose root
/// subtree carries no syntax error. Like the parse itself, a function of
/// the buffer and the fixed grammar alone.
pub uninterp spec fn cpp_error_free(code: Seq<u8>) -> bool;

/// Relies on the same parse chain as `parse_cpp`, followed by
/// tree_sitter::Tree::root_node and tree_sitter::Node::has_error.
#[verifier::external_body]
pub(crate) fn parse_cpp_error_free(text: &Vec<u8>) -> (r: Option<bool>)
    ensures
        r is Some <==> cpp_parse_succeeds(text@),
        r matches Some(b) ==> b == cpp_error_free(text@),
{
    let mut parser = tree_sitter::Parser::new();
    let lang = tree_sitter::Language::new(tree_sitter_cpp::LANGUAGE);
    if parser.set_language(&lang).is_err() {
        return None;
    }
    match parser.parse(text.as_slice(), None) {
        Some(tree) => Some(!tree.root_node().has_error()),
        None => None,
    }
}

/// Relies on String::from_utf8: `Some` exactly on valid UTF-8, and the
/// returned string then encodes back to the given bytes.
#[verifier::external_body]
pub(crate) fn string_from_utf8(v: Vec<u8>) -> (r: Option<String>)
    ensures
        r matches Some(s) ==> encode_utf8(s@) == v@,
        valid_utf8(v@) ==> r is Some,
{
    match String::from_utf8(v) {
        Ok(s) => Some(s),
        Err(_) => None,
    }
}

} // verus!

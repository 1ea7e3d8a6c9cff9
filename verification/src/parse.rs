//! Flattening a parse into the crate's own tree model. The traversal walks
//! the opaque parser tree breadth-first through the trusted wrappers, checks
//! every recorded offset and row against the buffer at runtime, and returns
//! a well-formed `SyntaxTree` or nothing.

use vstd::prelude::*;

use crate::ast::{FieldTag, NodeData, NodeKind, SyntaxTree};
use crate::strutil::str_eq;
use crate::ts;

verus! {

/// The node-kind tag for a grammar production name.
pub open spec fn spec_kind_of(s: Seq<char>) -> NodeKind {
    if s == "preproc_include"@ {
        NodeKind::PreprocInclude
    } else if s == "using_declaration"@ {
        NodeKind::UsingDecl
    } else if s == "function_definition"@ {
        NodeKind::FunctionDefinition
    } else if s == "function_declarator"@ {
        NodeKind::FunctionDeclarator
    } else if s == "call_expression"@ {
        NodeKind::CallExpression
    } else if s == "new_expression"@ {
        NodeKind::NewExpression
    } else if s == "field_expression"@ {
        NodeKind::FieldExpression
    } else if s == "qualified_identifier"@ {
        NodeKind::QualifiedIdentifier
    } else if s == "declaration"@ {
        NodeKind::Declaration
    } else if s == "assignment_expression"@ {
        NodeKind::AssignmentExpression
    } else if s == "return_statement"@ {
        NodeKind::ReturnStatement
    } else if s == "expression_statement"@ {
        NodeKind::ExpressionStatement
    } else if s == "parameter_declaration"@ {
        NodeKind::ParameterDeclaration
    } else {
        NodeKind::Other
    }
}

fn kind_of_name(s: &str) -> (r: NodeKind)
    ensures
        r == spec_kind_of(s@),
{
    if str_eq(s, "preproc_include") {
        NodeKind::PreprocInclude
    } else if str_eq(s, "using_declaration") {
        NodeKind::UsingDecl
    } else if str_eq(s, "function_definition") {
        NodeKind::FunctionDefinition
    } else if str_eq(s, "function_declarator") {
        NodeKind::FunctionDeclarator
    } else if str_eq(s, "call_expression") {
        NodeKind::CallExpression
    } else if str_eq(s, "new_expression") {
        NodeKind::NewExpression
    } else if str_eq(s, "field_expression") {
        NodeKind::FieldExpression
    } else if str_eq(s, "qualified_identifier") {
        NodeKind::QualifiedIdentifier
    } else if str_eq(s, "declaration") {
        NodeKind::Declaration
    } else if str_eq(s, "assignment_expression") {
        NodeKind::AssignmentExpression
    } else if str_eq(s, "return_statement") {
        NodeKind::ReturnStatement
    } else if str_eq(s, "expression_statement") {
        NodeKind::ExpressionStatement
    } else if str_eq(s, "parameter_declaration") {
        NodeKind::ParameterDeclaration
    } else {
        NodeKind::Other
    }
}

/// The field tag for a grammar field name.
pub open spec fn spec_field_of(s: Seq<char>) -> FieldTag {
    if s == "function"@ {
        FieldTag::Function
    } else if s == "arguments"@ {
        FieldTag::Arguments
    } else if s == "declarator"@ {
        FieldTag::Declarator
    } else if s == "parameters"@ {
        FieldTag::Parameters
    } else if s == "type"@ {
        FieldTag::Ty
    } else if s == "body"@ {
        FieldTag::Body
    } else if s == "argument"@ {
        FieldTag::Argument
    } else if s == "field"@ {
        FieldTag::FieldName
    } else if s == "left"@ {
        FieldTag::Left
    } else {
        FieldTag::OtherField
    }
}

fn field_of_name(s: &str) -> (r: FieldTag)
    ensures
        r == spec_field_of(s@),
{
    if str_eq(s, "function") {
        FieldTag::Function
    } else if str_eq(s, "arguments") {
        FieldTag::Arguments
    } else if str_eq(s, "declarator") {
        FieldTag::Declarator
    } else if str_eq(s, "parameters") {
        FieldTag::Parameters
    } else if str_eq(s, "type") {
        FieldTag::Ty
    } else if str_eq(s, "body") {
        FieldTag::Body
    } else if str_eq(s, "argument") {
        FieldTag::Argument
    } else if str_eq(s, "field") {
        FieldTag::FieldName
    } else if str_eq(s, "left") {
        FieldTag::Left
    } else {
        FieldTag::OtherField
    }
}

/// A well-formed tree holding a single unrecognizable node: what the
/// flattener yields when it cannot trust the parser tree's structure, so
/// that a successful parse always flattens rather than failing the file.
fn fallback_tree(len: usize) -> (r: SyntaxTree)
    requires
        len < usize::MAX,
    ensures
        r.wf(),
        r.code_len == len,
{
    let node = NodeData {
        kind: NodeKind::Other,
        field: FieldTag::NoField,
        start_byte: 0,
        end_byte: 0,
        row0: 0,
        parent: 0,
        children: Vec::new(),
    };
    let mut nodes: Vec<NodeData> = Vec::new();
    nodes.push(node);
    let t = SyntaxTree { nodes, code_len: len };
    proof {
        assert forall|i: int| 0 <= i < t.nodes@.len() implies t.node_wf(
            #[trigger] t.nodes@[i],
            i,
        ) by {
            assert(i == 0);
        }
    }
    t
}

/// Parses a buffer and flattens the result: `None` exactly when the
/// grammar rejects the buffer (or its length leaves no room for edits).
/// Position data that does not fit the buffer is clamped rather than
/// trusted, and a walk that exceeds the node budget yields a tree with no
/// recognizable nodes; either way a successful parse flattens to a
/// well-formed tree over this buffer.
pub fn parse_source(code: &Vec<u8>) -> (r: Option<SyntaxTree>)
    ensures
        r matches Some(t) ==> t.wf() && t.code_len == code@.len(),
        r is None <==> (code@.len() == usize::MAX || !ts::cpp_parse_succeeds(code@)),
{
    if code.len() == usize::MAX {
        return None;
    }
    let tree = match ts::parse_cpp(code) {
        Some(t) => t,
        None => {
            return None;
        },
    };
    let root = ts::tree_root(&tree);
    let mut queue: Vec<(tree_sitter::Node, usize, FieldTag)> = Vec::new();
    let mut out: Vec<NodeData> = Vec::new();
    queue.push((root, 0, FieldTag::NoField));
    let mut i: usize = 0;
    // A parse tree over n bytes stays far below this node count; treat a
    // run past it like a failed parse rather than trusting the tree to be
    // finite.
    let mut fuel: u128 = (code.len() as u128) * 64 + 1024;
    while i < queue.len()
        invariant
            out@.len() == i,
            i <= queue@.len(),
            1 <= queue@.len(),
            queue@[0].1 == 0,
            code@.len() < usize::MAX,
            ts::cpp_parse_succeeds(code@),
            forall|k: int| 1 <= k < queue@.len() ==> (#[trigger] queue@[k]).1 < k,
            forall|k: int|
                0 <= k < out@.len() ==> {
                    let n = #[trigger] out@[k];
                    &&& n.start_byte <= n.end_byte <= code@.len()
                    &&& n.row0 <= code@.len()
                    &&& if k == 0 {
                        n.parent == 0
                    } else {
                        (n.parent as int) < k
                    }
                    &&& forall|j: int|
                        0 <= j < n.children@.len() ==> (k < (#[trigger] n.children@[j]) as int && (
                        n.children@[j] as int) < queue@.len())
                },
        decreases fuel,
    {
        if fuel == 0 {
            return Some(fallback_tree(code.len()));
        }
        fuel = fuel - 1;
        let n = ts::node_copy(&queue[i].0);
        let parent = queue[i].1;
        let field = queue[i].2;
        let mut eb = ts::node_end_byte(&n);
        if eb > code.len() {
            eb = code.len();
        }
        let mut sb = ts::node_start_byte(&n);
        if sb > eb {
            sb = eb;
        }
        let mut row = ts::node_row(&n);
        if row > code.len() {
            row = code.len();
        }
        let kind_name = ts::node_kind(&n);
        let kind = kind_of_name(kind_name.as_str());
        let cc = ts::node_child_count(&n);
        let mut children: Vec<usize> = Vec::new();
        let mut j: u32 = 0;
        while j < cc
            invariant
                i < queue@.len(),
                1 <= queue@.len(),
                queue@[0].1 == 0,
                out@.len() == i,
                code@.len() < usize::MAX,
                ts::cpp_parse_succeeds(code@),
                forall|k: int| 1 <= k < queue@.len() ==> (#[trigger] queue@[k]).1 < k,
                forall|c: int|
                    0 <= c < children@.len() ==> ((i as int) < (#[trigger] children@[c]) as int && (
                    children@[c] as int) < queue@.len()),
                forall|k: int|
                    0 <= k < out@.len() ==> {
                        let n = #[trigger] out@[k];
                        &&& n.start_byte <= n.end_byte <= code@.len()
                        &&& n.row0 <= code@.len()
                        &&& if k == 0 {
                            n.parent == 0
                        } else {
                            (n.parent as int) < k
                        }
                        &&& forall|j2: int|
                            0 <= j2 < n.children@.len() ==> (k < (#[trigger] n.children@[j2]) as int
                                && (n.children@[j2] as int) < queue@.len())
                    },
            decreases cc - j,
        {
            match ts::node_child(&n, j) {
                Some(child) => {
                    let ftag = match ts::node_field_name(&n, j) {
                        Some(fs) => field_of_name(fs.as_str()),
                        None => FieldTag::NoField,
                    };
                    if queue.len() == usize::MAX {
                        return Some(fallback_tree(code.len()));
                    }
                    children.push(queue.len());
                    queue.push((child, i, ftag));
                },
                None => {},
            }
            j = j + 1;
        }
        out.push(
            NodeData {
                kind,
                field,
                start_byte: sb,
                end_byte: eb,
                row0: row,
                parent,
                children,
            },
        );
        i = i + 1;
    }
    let t = SyntaxTree { nodes: out, code_len: code.len() };
    proof {
        assert forall|k: int| 0 <= k < t.nodes@.len() implies t.node_wf(
            #[trigger] t.nodes@[k],
            k,
        ) by {
            assert(t.nodes@[k].start_byte <= t.nodes@[k].end_byte);
        }
    }
    Some(t)
}

} // verus!

//! The match-and-edit engine: walks a file's function definitions, wraps the
//! pass entry point with start/finish hooks, classifies every call and
//! object-construction site in ordinary functions, dispatches each matched
//! site to a context-specific edit template, and finally deduplicates,
//! orders, validates and applies the collected edits.

use vstd::prelude::*;
use vstd::string::StringSliceAdditionalSpecFns;

use crate::ast::{normalize, AstNode, FieldTag, NodeKind, SyntaxTree};
use crate::classify::{FnKind, FnMatch};
use crate::edit::{
    apply_edits, check_applicable, dedup_edits, edits_applicable, sort_edits, sorted_desc, Edit,
    EditKind,
};
use crate::hook;
use crate::hook::HEADER_INCLUDE;
use crate::hook::{
    spec_on_clone, spec_on_create, spec_on_drop, spec_on_finish, spec_on_merge, spec_on_move,
    spec_on_preserve, spec_on_remove, spec_on_start, spec_on_use_replace,
};
use crate::parse::parse_source;
use crate::strutil::str_eq;
use crate::ts;
use crate::visit::{
    child_at, child_by_field, get_children_of_kind, get_fn_identifier, get_parent_of_kind,
    get_var_name_from_assign, get_var_name_from_decl, in_subtree, spec_child_by_field,
    spec_decl_var, spec_nearest_ancestor,
};
use vstd::utf8::{decode_utf8, valid_utf8};

verus! {

/// Why a matched site or function was left un-instrumented.
#[derive(PartialEq, Eq, Structural, Clone, Copy, Debug)]
pub enum WarnKind {
    /// A function definition without a recognizable declarator.
    NoDeclarator,
    /// A matched call site whose enclosing context fits no template.
    UnsupportedContext,
    /// A matched construction site whose enclosing context fits no template.
    UnsupportedNewExpr,
    /// A pass entry point whose first parameter has no recognized target type.
    UnknownPassTarget,
    /// Extracted text that is not valid UTF-8.
    NonUtf8Text,
}

/// A per-occurrence diagnostic: where, why, and a normalized text excerpt.
pub struct Warning {
    pub row: usize,
    pub kind: WarnKind,
    pub excerpt: Vec<u8>,
}

/// Why a file's instrumentation was abandoned. Each condition is fatal for
/// the file alone; a batch driver proceeds with the next file.
#[derive(PartialEq, Eq, Structural, Clone, Copy, Debug)]
pub enum InstError {
    /// The grammar rejected the buffer, or position data did not fit it.
    ParseFailure,
    /// No include directive before which the monitor header could be placed.
    NoHeaderInclude,
    /// The pass entry point has no recognizable parameter list.
    MissingParamList,
    /// The collected edits overlap; applying them would corrupt the output.
    OverlappingEdits,
}

/// The rewritten buffer and the diagnostics gathered while producing it.
pub struct InstrumentOutput {
    pub code: Vec<u8>,
    pub warnings: Vec<Warning>,
}

/// Hook call inserted after a declaration that binds a created value.
pub open spec fn tmpl_create_decl(var: Seq<char>, row: nat) -> Seq<char> {
    " "@ + spec_on_create(var, row, var) + ";"@
}

/// Hook call and scope close following an assignment of a created value.
pub open spec fn tmpl_create_assign_close(var: Seq<char>, row: nat) -> Seq<char> {
    " "@ + spec_on_create(var, row, var) + "; }"@
}

/// Rewrite of `return <call>;` binding the result to a fresh temporary.
pub open spec fn tmpl_create_return(call_src: Seq<char>, row: nat) -> Seq<char> {
    "{ auto *V = "@ + call_src + "; "@ + spec_on_create("V"@, row, ""@) + "; return V; }"@
}

/// Rewrite of `<new-expr>` inside `return`, binding to a fresh temporary.
pub open spec fn tmpl_create_return_new(src: Seq<char>, row: nat) -> Seq<char> {
    "{ Value *V = "@ + src + "; "@ + spec_on_create("V"@, row, ""@) + "; return V; }"@
}

/// Rewrite of a bare creation call statement.
pub open spec fn tmpl_create_bare(call_src: Seq<char>, row: nat) -> Seq<char> {
    "Instruction *I = "@ + call_src + "; "@ + spec_on_create("I"@, row, "I"@) + ";"@
}

/// Hook call inserted after a declaration that binds a cloned value.
pub open spec fn tmpl_clone_decl(
    var: Seq<char>,
    old_ref: Seq<char>,
    old_name: Seq<char>,
    row: nat,
) -> Seq<char> {
    " "@ + spec_on_clone(var, old_ref, row, var, old_name) + ";"@
}

/// Hook call and scope close following an assignment of a cloned value.
pub open spec fn tmpl_clone_assign_close(
    var: Seq<char>,
    old_ref: Seq<char>,
    old_name: Seq<char>,
    row: nat,
) -> Seq<char> {
    " "@ + spec_on_clone(var, old_ref, row, var, old_name) + "; }"@
}

/// Hook call and scope close following a relocation call.
pub open spec fn tmpl_move_close(target_ref: Seq<char>, target: Seq<char>, row: nat) -> Seq<
    char,
> {
    " "@ + spec_on_move(target_ref, row, target) + "; }"@
}

/// Rewrite of a whole-value use-replacement statement: materialize both
/// operands once, replace through the temporaries, then report.
pub open spec fn tmpl_use_replace_all(
    amp: Seq<char>,
    src: Seq<char>,
    dst: Seq<char>,
    row: nat,
) -> Seq<char> {
    "{ Value *DebugLocSrc = "@ + amp + src + "; Value *DebugLocDst = "@ + dst
        + "; DebugLocSrc->replaceAllUsesWith(DebugLocDst); "@ + spec_on_use_replace(
        "DebugLocSrc"@,
        "DebugLocDst"@,
        row,
        dst,
        src,
    ) + "; }"@
}

/// Rewrite of a by-instance use-replacement statement.
pub open spec fn tmpl_use_replace_of(
    obj: Seq<char>,
    op: Seq<char>,
    old_v: Seq<char>,
    new_v: Seq<char>,
    row: nat,
) -> Seq<char> {
    "{ Value *DebugLocSrc = "@ + old_v + "; Value *DebugLocDst = "@ + new_v + "; "@ + obj + op
        + "replaceUsesOfWith(DebugLocSrc, DebugLocDst); "@ + spec_on_use_replace(
        "DebugLocSrc"@,
        "DebugLocDst"@,
        row,
        new_v,
        old_v,
    ) + "; }"@
}

/// Scope open with the hook call preceding a detachment/destruction call,
/// while the value is still valid.
pub open spec fn tmpl_remove_open(obj: Seq<char>, row: nat) -> Seq<char> {
    "{ "@ + spec_on_remove(obj, row, obj) + "; "@
}

/// Opening of the scope wrapped around a statement.
pub open spec fn tmpl_open_scope() -> Seq<char> {
    "{ "@
}

/// Scope close after a detachment/destruction call.
pub open spec fn tmpl_scope_close() -> Seq<char> {
    " }"@
}

/// Hook call and scope close following a debug-location preservation.
pub open spec fn tmpl_preserve_close(val: Seq<char>, row: nat) -> Seq<char> {
    " "@ + spec_on_preserve(val, row) + "; }"@
}

/// Hook call and scope close following a debug-location merge.
pub open spec fn tmpl_merge_close(val: Seq<char>, row: nat) -> Seq<char> {
    " "@ + spec_on_merge(val, row) + "; }"@
}

/// Hook call and scope close following a debug-location drop.
pub open spec fn tmpl_drop_close(val: Seq<char>, row: nat) -> Seq<char> {
    " "@ + spec_on_drop(val, row) + "; }"@
}

/// The close content of a wrapped bare statement, by event kind: the hook
/// that follows the original call inside the new scope, then the scope
/// close. For relocations the hook receives the (possibly address-taken)
/// reference and the plain name; debug-location hooks receive the receiver.
pub open spec fn tmpl_wrap_close(
    kind: FnKind,
    target_ref: Seq<char>,
    target: Seq<char>,
    row: nat,
) -> Seq<char> {
    if kind == FnKind::Move {
        tmpl_move_close(target_ref, target, row)
    } else if kind == FnKind::DLPreserve {
        tmpl_preserve_close(target, row)
    } else if kind == FnKind::DLMerge {
        tmpl_merge_close(target, row)
    } else {
        tmpl_drop_close(target, row)
    }
}

/// The normalized text of node `i`, as the visitor extracts it.
pub open spec fn node_source(t: SyntaxTree, code: Seq<u8>, i: int) -> Seq<u8> {
    normalize(code.subrange(t.nodes@[i].start_byte as int, t.nodes@[i].end_byte as int))
}

/// The characters of node `i`'s normalized text.
pub open spec fn node_text(t: SyntaxTree, code: Seq<u8>, i: int) -> Seq<char> {
    decode_utf8(node_source(t, code, i))
}

/// Node `i`'s direct parent is an expression statement: the site stands as
/// a bare statement.
pub open spec fn spec_parent_is_expr_stmt(t: SyntaxTree, i: int) -> bool {
    t.nodes@[t.nodes@[i].parent as int].kind == NodeKind::ExpressionStatement
}

/// A declaration-bound creation site can be instrumented: the declaration
/// binds a variable whose extracted text is valid UTF-8.
pub open spec fn create_decl_applies(t: SyntaxTree, code: Seq<u8>, decl: int) -> bool {
    match spec_decl_var(t, decl) {
        Some(v) => valid_utf8(node_source(t, code, v as int)),
        None => false,
    }
}

/// The bound variable's text at a declaration-bound creation site.
pub open spec fn create_decl_var_text(t: SyntaxTree, code: Seq<u8>, decl: int) -> Seq<char> {
    match spec_decl_var(t, decl) {
        Some(v) => node_text(t, code, v as int),
        None => Seq::empty(),
    }
}

/// A bare detachment site can be instrumented: the call is a bare
/// statement and its receiver's extracted text is valid UTF-8.
pub open spec fn remove_applies(t: SyntaxTree, code: Seq<u8>, call: int, callee: int) -> bool {
    &&& spec_parent_is_expr_stmt(t, call)
    &&& match spec_child_by_field(t, callee, FieldTag::Argument) {
        Some(o) => valid_utf8(node_source(t, code, o as int)),
        None => false,
    }
}

/// The receiver's text at a detachment site.
pub open spec fn remove_obj_text(t: SyntaxTree, code: Seq<u8>, callee: int) -> Seq<char> {
    match spec_child_by_field(t, callee, FieldTag::Argument) {
        Some(o) => node_text(t, code, o as int),
        None => Seq::empty(),
    }
}

/// The callee's accessor operator can be read: the callee has a second
/// child and its text is valid UTF-8.
pub open spec fn accessor_readable(t: SyntaxTree, code: Seq<u8>, callee: int) -> bool {
    t.nodes@[callee].children@.len() > 1 && valid_utf8(
        node_source(t, code, t.nodes@[callee].children@[1] as int),
    )
}

/// Whether the callee's accessor operator is `->`.
pub open spec fn accessor_arrow(t: SyntaxTree, code: Seq<u8>, callee: int) -> bool {
    node_text(t, code, t.nodes@[callee].children@[1] as int) == "->"@
}

/// A relocation or debug-location site can be instrumented: a bare
/// statement whose receiver's text is valid UTF-8; a relocation site also
/// needs a readable accessor operator to decide the address-of adjustment.
pub open spec fn wrap_after_applies(
    t: SyntaxTree,
    code: Seq<u8>,
    call: int,
    callee: int,
    kind: FnKind,
) -> bool {
    &&& spec_parent_is_expr_stmt(t, call)
    &&& match spec_child_by_field(t, callee, FieldTag::Argument) {
        Some(o) => valid_utf8(node_source(t, code, o as int)),
        None => false,
    }
    &&& (kind == FnKind::Move ==> accessor_readable(t, code, callee))
}

/// The receiver's text at a wrapped-after site.
pub open spec fn wrap_target_text(t: SyntaxTree, code: Seq<u8>, callee: int) -> Seq<char> {
    match spec_child_by_field(t, callee, FieldTag::Argument) {
        Some(o) => node_text(t, code, o as int),
        None => Seq::empty(),
    }
}

/// The receiver reference passed to a relocation hook: the plain receiver
/// text behind `->`, its address behind `.`.
pub open spec fn wrap_target_ref(t: SyntaxTree, code: Seq<u8>, callee: int) -> Seq<char> {
    if accessor_arrow(t, code, callee) {
        wrap_target_text(t, code, callee)
    } else {
        "&"@ + wrap_target_text(t, code, callee)
    }
}

/// The text of the argument-list child at position `idx`.
pub open spec fn arg_text(t: SyntaxTree, code: Seq<u8>, arguments: int, idx: int) -> Seq<char> {
    node_text(t, code, t.nodes@[arguments].children@[idx] as int)
}

/// The address-of prefix for a use-replacement receiver: empty behind `->`,
/// `&` behind `.`.
pub open spec fn amp_of(t: SyntaxTree, code: Seq<u8>, callee: int) -> Seq<char> {
    if accessor_arrow(t, code, callee) {
        ""@
    } else {
        "&"@
    }
}

/// The accessor operator spelled back into a by-instance replacement.
pub open spec fn op_of(t: SyntaxTree, code: Seq<u8>, callee: int) -> Seq<char> {
    if accessor_arrow(t, code, callee) {
        "->"@
    } else {
        "."@
    }
}

/// A whole-value use-replacement statement can be rewritten: bare
/// statement, readable accessor, and receiver and first argument texts
/// valid UTF-8.
pub open spec fn use_replace_all_applies(
    t: SyntaxTree,
    code: Seq<u8>,
    call: int,
    callee: int,
    arguments: int,
) -> bool {
    &&& spec_parent_is_expr_stmt(t, call)
    &&& match spec_child_by_field(t, callee, FieldTag::Argument) {
        Some(o) => valid_utf8(node_source(t, code, o as int)),
        None => false,
    }
    &&& t.nodes@[arguments].children@.len() > 1
    &&& valid_utf8(node_source(t, code, t.nodes@[arguments].children@[1] as int))
    &&& accessor_readable(t, code, callee)
}

/// A by-instance use-replacement statement can be rewritten: bare
/// statement, readable accessor, and receiver and both argument texts
/// valid UTF-8.
pub open spec fn use_replace_of_applies(
    t: SyntaxTree,
    code: Seq<u8>,
    call: int,
    callee: int,
    arguments: int,
) -> bool {
    &&& spec_parent_is_expr_stmt(t, call)
    &&& match spec_child_by_field(t, callee, FieldTag::Argument) {
        Some(o) => valid_utf8(node_source(t, code, o as int)),
        None => false,
    }
    &&& t.nodes@[arguments].children@.len() > 3
    &&& valid_utf8(node_source(t, code, t.nodes@[arguments].children@[1] as int))
    &&& valid_utf8(node_source(t, code, t.nodes@[arguments].children@[3] as int))
    &&& accessor_readable(t, code, callee)
}

/// The nearest ancestor of `j` of kind `k` as an index, or -1 when none.
pub open spec fn anc_or(t: SyntaxTree, j: int, k: NodeKind) -> int {
    match spec_nearest_ancestor(t, j, k) {
        Some(p) => p as int,
        None => -1,
    }
}

/// The 1-based row of node `i`.
pub open spec fn row_of(t: SyntaxTree, i: int) -> nat {
    (t.nodes@[i].row0 + 1) as nat
}

/// An assignment's left-hand side can be read: it exists and its text is
/// valid UTF-8.
pub open spec fn assign_applies(t: SyntaxTree, code: Seq<u8>, a: int) -> bool {
    match spec_child_by_field(t, a, FieldTag::Left) {
        Some(v) => valid_utf8(node_source(t, code, v as int)),
        None => false,
    }
}

/// The assigned variable's text.
pub open spec fn assign_var_text(t: SyntaxTree, code: Seq<u8>, a: int) -> Seq<char> {
    match spec_child_by_field(t, a, FieldTag::Left) {
        Some(v) => node_text(t, code, v as int),
        None => Seq::empty(),
    }
}

/// A duplication site's operands can be read: the callee has a receiver
/// with valid text and a readable accessor operator.
pub open spec fn clone_base_applies(t: SyntaxTree, code: Seq<u8>, callee: int) -> bool {
    &&& match spec_child_by_field(t, callee, FieldTag::Argument) {
        Some(o) => valid_utf8(node_source(t, code, o as int)),
        None => false,
    }
    &&& accessor_readable(t, code, callee)
}

/// The construction site's type is readable and names a creation type.
pub open spec fn new_matched(t: SyntaxTree, code: Seq<u8>, new_expr: int) -> bool {
    match spec_child_by_field(t, new_expr, FieldTag::Ty) {
        Some(ty) => valid_utf8(node_source(t, code, ty as int)) && crate::classify::spec_fn_kind(
            node_text(t, code, ty as int),
        ) == Some(FnKind::Create),
        None => false,
    }
}

/// The pass entry's parameter list: the `parameters` child of its
/// `declarator` child.
pub open spec fn entry_param_list(t: SyntaxTree, pe: int) -> Option<usize> {
    match spec_child_by_field(t, pe, FieldTag::Declarator) {
        Some(d) => spec_child_by_field(t, d as int, FieldTag::Parameters),
        None => None,
    }
}

/// The pass entry's first parameter declaration.
pub open spec fn entry_first_param(t: SyntaxTree, pe: int) -> Option<int> {
    match entry_param_list(t, pe) {
        Some(pl) => crate::visit::first_of_kind(t, pl as int, NodeKind::ParameterDeclaration),
        None => None,
    }
}

/// The first parameter's type text names a recognized pass target.
pub open spec fn entry_target_recognized(t: SyntaxTree, code: Seq<u8>, pe: int) -> bool {
    match entry_first_param(t, pe) {
        Some(p0) => match spec_child_by_field(t, p0, FieldTag::Ty) {
            Some(ty) => valid_utf8(node_source(t, code, ty as int)) && (node_text(t, code, ty as int)
                == "Function"@ || node_text(t, code, ty as int) == "Loop"@ || node_text(
                t,
                code,
                ty as int,
            ) == "LoopNest"@),
            None => false,
        },
        None => false,
    }
}

/// A recognized pass entry can be bracketed: the target parameter's name
/// and the body's first statement are reachable and readable.
pub open spec fn entry_instrumentable(t: SyntaxTree, code: Seq<u8>, pe: int) -> bool {
    &&& entry_target_recognized(t, code, pe)
    &&& match entry_first_param(t, pe) {
        Some(p0) => match spec_child_by_field(t, p0, FieldTag::Declarator) {
            Some(pd) => t.nodes@[pd as int].children@.len() > 1 && valid_utf8(
                node_source(t, code, t.nodes@[pd as int].children@[1] as int),
            ),
            None => false,
        },
        None => false,
    }
    &&& match spec_child_by_field(t, pe, FieldTag::Body) {
        Some(b) => t.nodes@[b as int].children@.len() > 1,
        None => false,
    }
}

/// The conditions under which bracketing the pass entry is abandoned as
/// fatal for the file: no declarator/parameter chain, no first parameter,
/// no type on it, or a recognized target type whose parameter declarator
/// cannot supply the target's name.
pub open spec fn entry_missing_params(t: SyntaxTree, code: Seq<u8>, pe: int) -> bool {
    ||| entry_param_list(t, pe) is None
    ||| entry_first_param(t, pe) is None
    ||| match entry_first_param(t, pe) {
        Some(p0) => spec_child_by_field(t, p0, FieldTag::Ty) is None || (entry_target_recognized(
            t,
            code,
            pe,
        ) && match spec_child_by_field(t, p0, FieldTag::Declarator) {
            Some(pd) => t.nodes@[pd as int].children@.len() <= 1,
            None => true,
        }),
        None => true,
    }
}

/// The pass target's name: the first parameter declarator's second child.
pub open spec fn entry_target_text(t: SyntaxTree, code: Seq<u8>, pe: int) -> Seq<char> {
    match entry_first_param(t, pe) {
        Some(p0) => match spec_child_by_field(t, p0, FieldTag::Declarator) {
            Some(pd) => node_text(t, code, t.nodes@[pd as int].children@[1] as int),
            None => Seq::empty(),
        },
        None => Seq::empty(),
    }
}

/// The body's first statement (the child after the opening brace).
pub open spec fn entry_body_first(t: SyntaxTree, pe: int) -> int {
    match spec_child_by_field(t, pe, FieldTag::Body) {
        Some(b) => t.nodes@[b as int].children@[1] as int,
        None => -1,
    }
}

/// The body node of the pass entry, or -1.
pub open spec fn entry_body(t: SyntaxTree, pe: int) -> int {
    match spec_child_by_field(t, pe, FieldTag::Body) {
        Some(b) => b as int,
        None => -1,
    }
}

/// The callee expression of a call site.
pub open spec fn call_callee(t: SyntaxTree, call: int) -> Option<usize> {
    spec_child_by_field(t, call, FieldTag::Function)
}

/// The node carrying the callee's name: the `field` child of a member
/// access, the callee itself for a qualified name; other callee shapes are
/// not inspected.
pub open spec fn call_name_node(t: SyntaxTree, call: int) -> Option<int> {
    match call_callee(t, call) {
        Some(ce) => if t.nodes@[ce as int].kind == NodeKind::FieldExpression {
            match spec_child_by_field(t, ce as int, FieldTag::FieldName) {
                Some(f) => Some(f as int),
                None => None,
            }
        } else if t.nodes@[ce as int].kind == NodeKind::QualifiedIdentifier {
            Some(ce as int)
        } else {
            None
        },
        None => None,
    }
}

/// The call site's callee name can be read and classified.
pub open spec fn call_resolves(t: SyntaxTree, code: Seq<u8>, call: int) -> bool {
    &&& spec_child_by_field(t, call, FieldTag::Arguments) is Some
    &&& match call_name_node(t, call) {
        Some(nn) => valid_utf8(node_source(t, code, nn)),
        None => false,
    }
}

/// The event kind of a resolved call site's name.
pub open spec fn call_kind(t: SyntaxTree, code: Seq<u8>, call: int) -> Option<FnKind> {
    match call_name_node(t, call) {
        Some(nn) => crate::classify::spec_fn_kind(node_text(t, code, nn)),
        None => None,
    }
}

/// A duplication site whose operands are readable stands in no supported
/// context: a declaration without a bindable variable, an assignment
/// without a left-hand side, or neither construct at all.
pub open spec fn clone_context_unsupported(
    t: SyntaxTree,
    code: Seq<u8>,
    call: int,
    callee: int,
) -> bool {
    &&& clone_base_applies(t, code, callee)
    &&& ({
        let d = anc_or(t, call, NodeKind::Declaration);
        let a = anc_or(t, call, NodeKind::AssignmentExpression);
        ||| (d >= 0 && spec_decl_var(t, d) is None)
        ||| (d < 0 && a >= 0 && spec_child_by_field(t, a, FieldTag::Left) is None)
        ||| (d < 0 && a < 0)
    })
}

/// A matched construction site stands in no supported context.
pub open spec fn new_context_unsupported(t: SyntaxTree, code: Seq<u8>, ne: int) -> bool {
    &&& new_matched(t, code, ne)
    &&& ({
        let d = anc_or(t, ne, NodeKind::Declaration);
        let a = anc_or(t, ne, NodeKind::AssignmentExpression);
        let rt = anc_or(t, ne, NodeKind::ReturnStatement);
        ||| (d >= 0 && spec_decl_var(t, d) is None)
        ||| (d < 0 && a >= 0 && spec_child_by_field(t, a, FieldTag::Left) is None)
        ||| (d < 0 && a < 0 && rt < 0)
    })
}

/// The definition has no function declarator anywhere beneath it.
pub open spec fn no_declarator(t: SyntaxTree, fd: int) -> bool {
    crate::visit::first_of_kind(t, fd, NodeKind::FunctionDeclarator) is None
}

/// The definition's identifier is readable and follows the pass-entry
/// naming convention.
pub open spec fn is_entry_def(t: SyntaxTree, code: Seq<u8>, fd: int) -> bool {
    match crate::visit::spec_fn_identifier(t, fd) {
        Some(id) => valid_utf8(node_source(t, code, id as int)) && crate::strutil::seq_ends_with(
            node_text(t, code, id as int),
            "Pass::run"@,
        ),
        None => false,
    }
}

/// `lst` is exactly the ascending list of nodes of kind `k` in the subtree
/// of `root`.
pub open spec fn kind_list_of(t: SyntaxTree, root: int, k: NodeKind, lst: Seq<usize>) -> bool {
    &&& forall|c: int| 0 <= c < lst.len() ==> (#[trigger] lst[c]) < t.nodes@.len()
    &&& forall|c: int, d: int| 0 <= c < d < lst.len() ==> lst[c] < lst[d]
    &&& forall|j: int|
        0 <= j < t.nodes@.len() ==> ((#[trigger] lst.contains(j as usize)) <==> (in_subtree(
            t,
            root,
            j,
        ) && t.nodes@[j].kind == k))
}

/// What visiting an ordinary definition does to the edit list: its call
/// sites are visited in node order, then its construction sites, each step
/// governed by the site laws.
pub open spec fn ordinary_edits_ok(
    t: SyntaxTree,
    code: Seq<u8>,
    fd: int,
    pre: Seq<Edit>,
    post: Seq<Edit>,
) -> bool {
    exists|calls: Seq<usize>, news: Seq<usize>, chkc: Seq<Seq<Edit>>, chkn: Seq<Seq<Edit>>|
        #![trigger calls.len(), news.len(), chkc.len(), chkn.len()]
        ({
            &&& kind_list_of(t, fd, NodeKind::CallExpression, calls)
            &&& kind_list_of(t, fd, NodeKind::NewExpression, news)
            &&& chkc.len() == calls.len() + 1
            &&& chkc[0] == pre
            &&& forall|i: int|
                0 <= i < calls.len() ==> call_site_ok(
                    t,
                    code,
                    (#[trigger] calls[i]) as int,
                    chkc[i],
                    chkc[i + 1],
                )
            &&& chkn.len() == news.len() + 1
            &&& chkn[0] == chkc[calls.len() as int]
            &&& chkn[news.len() as int] == post
            &&& forall|i: int|
                0 <= i < news.len() ==> new_site_ok(
                    t,
                    code,
                    (#[trigger] news[i]) as int,
                    chkn[i],
                    chkn[i + 1],
                )
        })
}

/// The dispatch law for one function definition: without a declarator it
/// contributes one diagnostic and no edits; a pass entry point gets only
/// the bracketing edits; any other definition gets only its call- and
/// construction-site edits.
pub open spec fn fn_def_step_ok(
    t: SyntaxTree,
    code: Seq<u8>,
    fname: Seq<char>,
    fd: int,
    pre: Seq<Edit>,
    post: Seq<Edit>,
    prew: Seq<Warning>,
    postw: Seq<Warning>,
) -> bool {
    if no_declarator(t, fd) {
        &&& post == pre
        &&& postw.len() == prew.len() + 1
        &&& (postw.last().row as nat) == row_of(t, fd)
        &&& postw.last().kind == WarnKind::NoDeclarator
        &&& postw.last().excerpt@ == node_source(t, code, fd)
    } else if is_entry_def(t, code, fd) {
        entry_edits_ok(t, code, fname, fd, pre, post)
    } else {
        ordinary_edits_ok(t, code, fd, pre, post)
    }
}

/// What collecting a whole file's edits does: the monitor-header insert
/// is recorded first, at the smallest include start, and then every
/// function definition is dispatched in node order under the per-definition
/// law.
pub open spec fn collected_ok(
    t: SyntaxTree,
    code: Seq<u8>,
    fname: Seq<char>,
    pre: Seq<Edit>,
    prew: Seq<Warning>,
    post: Seq<Edit>,
    postw: Seq<Warning>,
) -> bool {
    exists|hc: String, hp: usize, defs: Seq<usize>, chk: Seq<(Seq<Edit>, Seq<Warning>)>|
        #![trigger hc@, header_insert_at(t, hp), defs.len(), chk.len()]
        ({
            &&& hc@ == HEADER_INCLUDE@
            &&& header_insert_at(t, hp)
            &&& kind_list_of(t, 0, NodeKind::FunctionDefinition, defs)
            &&& chk.len() == defs.len() + 1
            &&& chk[0] == (
                pre.push((Edit { content: hc, start_pos: hp, kind: EditKind::Insert })),
                prew,
            )
            &&& chk[defs.len() as int] == (post, postw)
            &&& forall|m: int|
                0 <= m < defs.len() ==> fn_def_step_ok(
                    t,
                    code,
                    fname,
                    (#[trigger] defs[m]) as int,
                    chk[m].0,
                    chk[m + 1].0,
                    chk[m].1,
                    chk[m + 1].1,
                )
        })
}

/// Where the scope close after a wrapped construct goes: the end of the
/// enclosing expression statement when the construct stands as one (so a
/// blank before the terminator cannot leave the close inside the
/// statement), and the byte after the construct otherwise.
pub open spec fn stmt_close_anchor(t: SyntaxTree, i: int) -> int {
    let p = t.nodes@[t.nodes@[i].parent as int];
    if p.kind == NodeKind::ExpressionStatement {
        p.end_byte as int
    } else {
        t.nodes@[i].end_byte + 1
    }
}

/// `post` begins with `pre`: the collection layer only appends edits.
pub open spec fn edits_extend(pre: Seq<Edit>, post: Seq<Edit>) -> bool {
    pre.len() <= post.len() && forall|i: int| 0 <= i < pre.len() ==> (#[trigger] post[i]) == pre[i]
}

/// What visiting one creation call site does to the edit list, one clause
/// per context of the dispatch table.
pub open spec fn create_site_ok(
    t: SyntaxTree,
    code: Seq<u8>,
    call: int,
    pre: Seq<Edit>,
    post: Seq<Edit>,
) -> bool {
    &&& edits_extend(pre, post)
    &&& ({
        let d = anc_or(t, call, NodeKind::Declaration);
        let a = anc_or(t, call, NodeKind::AssignmentExpression);
        let rt = anc_or(t, call, NodeKind::ReturnStatement);
        &&& (d >= 0 && create_decl_applies(t, code, d)) ==> exists|c: String|
            #![trigger c@]
            (c@ == tmpl_create_decl(create_decl_var_text(t, code, d), row_of(t, d))
                && post == pre.push(
                (Edit {
                    content: c,
                    start_pos: t.nodes@[d].end_byte,
                    kind: EditKind::Insert,
                }),
            ))
        &&& (d < 0 && a >= 0 && assign_applies(t, code, a)) ==> exists|
            c1: String,
            c2: String,
        |
            #![trigger c1@, c2@]
            (c1@ == tmpl_open_scope() && c2@ == tmpl_create_assign_close(
                assign_var_text(t, code, a),
                row_of(t, a),
            ) && post == pre.push(
                (Edit {
                    content: c1,
                    start_pos: t.nodes@[a].start_byte,
                    kind: EditKind::Insert,
                }),
            ).push(
                (Edit {
                    content: c2,
                    start_pos: stmt_close_anchor(t, a) as usize,
                    kind: EditKind::Insert,
                }),
            ))
        &&& (d < 0 && a < 0 && rt >= 0 && valid_utf8(node_source(t, code, call)))
            ==> exists|c: String|
            #![trigger c@]
            (c@ == tmpl_create_return(node_text(t, code, call), row_of(t, rt))
                && post == pre.push(
                (Edit {
                    content: c,
                    start_pos: t.nodes@[rt].start_byte,
                    kind: EditKind::Replace(t.nodes@[rt].end_byte),
                }),
            ))
        &&& (d < 0 && a < 0 && rt < 0 && spec_parent_is_expr_stmt(t, call)
            && valid_utf8(node_source(t, code, call))) ==> exists|c: String|
            #![trigger c@]
            (c@ == tmpl_create_bare(node_text(t, code, call), row_of(t, call))
                && post == pre.push(
                (Edit {
                    content: c,
                    start_pos: t.nodes@[call].start_byte,
                    kind: EditKind::Replace(t.nodes@[call].end_byte),
                }),
            ))
        &&& !((d >= 0 && create_decl_applies(t, code, d)) || (d < 0 && a >= 0
            && assign_applies(t, code, a)) || (d < 0 && a < 0 && rt >= 0 && valid_utf8(
            node_source(t, code, call),
        )) || (d < 0 && a < 0 && rt < 0 && spec_parent_is_expr_stmt(t, call)
            && valid_utf8(node_source(t, code, call))))
            ==> post == pre
    })
}

/// The index of the call's callee expression, or -1 when it has none.
pub open spec fn resolved_callee(t: SyntaxTree, call: int) -> int {
    match call_callee(t, call) {
        Some(ce) => ce as int,
        None => -1,
    }
}

/// What visiting one bare detachment site does to the edit list.
pub open spec fn remove_site_ok(
    t: SyntaxTree,
    code: Seq<u8>,
    call: int,
    pre: Seq<Edit>,
    post: Seq<Edit>,
) -> bool {
    let ce = resolved_callee(t, call);
    &&& remove_applies(t, code, call, ce) ==> exists|c1: String, c2: String|
        #![trigger c1@, c2@]
        (c1@ == tmpl_remove_open(remove_obj_text(t, code, ce), row_of(t, call))
            && c2@ == tmpl_scope_close() && post == pre.push(
            (Edit {
                content: c1,
                start_pos: t.nodes@[call].start_byte,
                kind: EditKind::Insert,
            }),
        ).push(
            (Edit {
                content: c2,
                start_pos: stmt_close_anchor(t, call) as usize,
                kind: EditKind::Insert,
            }),
        ))
    &&& !remove_applies(t, code, call, ce) ==> post == pre
}

/// The index of the call's argument list, or -1 when it has none.
pub open spec fn resolved_arguments(t: SyntaxTree, call: int) -> int {
    match spec_child_by_field(t, call, FieldTag::Arguments) {
        Some(a) => a as int,
        None => -1,
    }
}

/// The callee name a call site classifies under.
pub open spec fn resolved_name(t: SyntaxTree, code: Seq<u8>, call: int) -> Seq<char> {
    match call_name_node(t, call) {
        Some(nn) => node_text(t, code, nn),
        None => Seq::empty(),
    }
}

/// What visiting one duplication site does to the edit list.
pub open spec fn clone_site_ok(
    t: SyntaxTree,
    code: Seq<u8>,
    call: int,
    pre: Seq<Edit>,
    post: Seq<Edit>,
) -> bool {
    let ce = resolved_callee(t, call);
    &&& clone_base_applies(t, code, ce) ==> ({
        let orf = wrap_target_ref(t, code, ce);
        let on = wrap_target_text(t, code, ce);
        let d = anc_or(t, call, NodeKind::Declaration);
        let a = anc_or(t, call, NodeKind::AssignmentExpression);
        &&& (d >= 0 && create_decl_applies(t, code, d)) ==> exists|c: String|
            #![trigger c@]
            (c@ == tmpl_clone_decl(create_decl_var_text(t, code, d), orf, on, row_of(t, d))
                && post == pre.push(
                (Edit { content: c, start_pos: t.nodes@[d].end_byte, kind: EditKind::Insert }),
            ))
        &&& (d < 0 && a >= 0 && assign_applies(t, code, a)) ==> exists|c1: String, c2: String|
            #![trigger c1@, c2@]
            (c1@ == tmpl_open_scope() && c2@ == tmpl_clone_assign_close(
                assign_var_text(t, code, a),
                orf,
                on,
                row_of(t, a),
            ) && post == pre.push(
                (Edit { content: c1, start_pos: t.nodes@[a].start_byte, kind: EditKind::Insert }),
            ).push(
                (Edit {
                    content: c2,
                    start_pos: stmt_close_anchor(t, a) as usize,
                    kind: EditKind::Insert,
                }),
            ))
        &&& !((d >= 0 && create_decl_applies(t, code, d)) || (d < 0 && a >= 0 && assign_applies(
            t,
            code,
            a,
        ))) ==> post == pre
    })
    &&& !clone_base_applies(t, code, ce) ==> post == pre
}

/// What visiting one relocation or debug-location site does to the edit
/// list.
pub open spec fn wrap_site_ok(
    t: SyntaxTree,
    code: Seq<u8>,
    call: int,
    kind: FnKind,
    pre: Seq<Edit>,
    post: Seq<Edit>,
) -> bool {
    let ce = resolved_callee(t, call);
    &&& wrap_after_applies(t, code, call, ce, kind) ==> exists|c1: String, c2: String|
        #![trigger c1@, c2@]
        (c1@ == tmpl_open_scope() && c2@ == tmpl_wrap_close(
            kind,
            wrap_target_ref(t, code, ce),
            wrap_target_text(t, code, ce),
            row_of(t, call),
        ) && post == pre.push(
            (Edit { content: c1, start_pos: t.nodes@[call].start_byte, kind: EditKind::Insert }),
        ).push(
            (Edit {
                content: c2,
                start_pos: stmt_close_anchor(t, call) as usize,
                kind: EditKind::Insert,
            }),
        ))
    &&& !wrap_after_applies(t, code, call, ce, kind) ==> post == pre
}

/// What visiting one use-replacement site does to the edit list.
pub open spec fn use_replace_site_ok(
    t: SyntaxTree,
    code: Seq<u8>,
    call: int,
    pre: Seq<Edit>,
    post: Seq<Edit>,
) -> bool {
    let ce = resolved_callee(t, call);
    let ar = resolved_arguments(t, call);
    let nm = resolved_name(t, code, call);
    &&& (nm == "replaceAllUsesWith"@ && use_replace_all_applies(t, code, call, ce, ar)) ==> exists|
        c: String,
    |
        #![trigger c@]
        (c@ == tmpl_use_replace_all(
            amp_of(t, code, ce),
            wrap_target_text(t, code, ce),
            arg_text(t, code, ar, 1),
            row_of(t, call),
        ) && post == pre.push(
            (Edit {
                content: c,
                start_pos: t.nodes@[call].start_byte,
                kind: EditKind::Replace((stmt_close_anchor(t, call) as usize)),
            }),
        ))
    &&& (nm != "replaceAllUsesWith"@ && use_replace_of_applies(t, code, call, ce, ar)) ==> exists|
        c: String,
    |
        #![trigger c@]
        (c@ == tmpl_use_replace_of(
            wrap_target_text(t, code, ce),
            op_of(t, code, ce),
            arg_text(t, code, ar, 1),
            arg_text(t, code, ar, 3),
            row_of(t, call),
        ) && post == pre.push(
            (Edit {
                content: c,
                start_pos: t.nodes@[call].start_byte,
                kind: EditKind::Replace((stmt_close_anchor(t, call) as usize)),
            }),
        ))
    &&& !((nm == "replaceAllUsesWith"@ && use_replace_all_applies(t, code, call, ce, ar)) || (nm
        != "replaceAllUsesWith"@ && use_replace_of_applies(t, code, call, ce, ar))) ==> post == pre
}

/// What visiting one call site does to the edit list: it only appends, and
/// appends nothing when the callee cannot be resolved or its name is
/// outside the vocabulary; recognized sites are governed by the per-kind
/// handler laws.
pub open spec fn call_site_ok(
    t: SyntaxTree,
    code: Seq<u8>,
    call: int,
    pre: Seq<Edit>,
    post: Seq<Edit>,
) -> bool {
    &&& edits_extend(pre, post)
    &&& !call_resolves(t, code, call) ==> post == pre
    &&& (call_resolves(t, code, call) && call_kind(t, code, call) is None) ==> post == pre
    &&& (call_resolves(t, code, call) && call_kind(t, code, call) == Some(FnKind::Create))
        ==> create_site_ok(t, code, call, pre, post)
    &&& (call_resolves(t, code, call) && call_kind(t, code, call) == Some(FnKind::Remove))
        ==> remove_site_ok(t, code, call, pre, post)
    &&& (call_resolves(t, code, call) && call_kind(t, code, call) == Some(FnKind::Clone))
        ==> clone_site_ok(t, code, call, pre, post)
    &&& (call_resolves(t, code, call) && call_kind(t, code, call) == Some(FnKind::Move))
        ==> wrap_site_ok(t, code, call, FnKind::Move, pre, post)
    &&& (call_resolves(t, code, call) && call_kind(t, code, call) == Some(FnKind::DLPreserve))
        ==> wrap_site_ok(t, code, call, FnKind::DLPreserve, pre, post)
    &&& (call_resolves(t, code, call) && call_kind(t, code, call) == Some(FnKind::DLMerge))
        ==> wrap_site_ok(t, code, call, FnKind::DLMerge, pre, post)
    &&& (call_resolves(t, code, call) && call_kind(t, code, call) == Some(FnKind::DLDrop))
        ==> wrap_site_ok(t, code, call, FnKind::DLDrop, pre, post)
    &&& (call_resolves(t, code, call) && call_kind(t, code, call) == Some(FnKind::UseReplace))
        ==> use_replace_site_ok(t, code, call, pre, post)
}

/// What visiting one construction site does to the edit list, one clause
/// per handled context of the dispatch table.
pub open spec fn new_site_ok(
    t: SyntaxTree,
    code: Seq<u8>,
    new_expr: int,
    pre: Seq<Edit>,
    post: Seq<Edit>,
) -> bool {
    &&& edits_extend(pre, post)
    &&& new_matched(t, code, new_expr) ==> ({
        let rw = t.nodes@[new_expr].spec_row();
        let d = anc_or(t, new_expr, NodeKind::Declaration);
        let a = anc_or(t, new_expr, NodeKind::AssignmentExpression);
        let rt = anc_or(t, new_expr, NodeKind::ReturnStatement);
        &&& (d >= 0 && create_decl_applies(t, code, d)) ==> exists|c: String|
            #![trigger c@]
            (c@ == tmpl_create_decl(create_decl_var_text(t, code, d), rw)
                && post == pre.push(
                (Edit {
                    content: c,
                    start_pos: t.nodes@[d].end_byte,
                    kind: EditKind::Insert,
                }),
            ))
        &&& (d < 0 && a >= 0 && assign_applies(t, code, a)) ==> exists|
            c1: String,
            c2: String,
        |
            #![trigger c1@, c2@]
            (c1@ == tmpl_open_scope() && c2@ == tmpl_create_assign_close(
                assign_var_text(t, code, a),
                rw,
            ) && post == pre.push(
                (Edit {
                    content: c1,
                    start_pos: t.nodes@[a].start_byte,
                    kind: EditKind::Insert,
                }),
            ).push(
                (Edit {
                    content: c2,
                    start_pos: stmt_close_anchor(t, a) as usize,
                    kind: EditKind::Insert,
                }),
            ))
        &&& (d < 0 && a < 0 && rt >= 0 && valid_utf8(
            node_source(t, code, new_expr),
        )) ==> exists|c: String|
            #![trigger c@]
            (c@ == tmpl_create_return_new(node_text(t, code, new_expr), rw)
                && post == pre.push(
                (Edit {
                    content: c,
                    start_pos: t.nodes@[rt].start_byte,
                    kind: EditKind::Replace(t.nodes@[rt].end_byte),
                }),
            ))
        &&& !((d >= 0 && create_decl_applies(t, code, d)) || (d < 0 && a >= 0
            && assign_applies(t, code, a)) || (d < 0 && a < 0 && rt >= 0 && valid_utf8(
            node_source(t, code, new_expr),
        ))) ==> post == pre
    })
    &&& !new_matched(t, code, new_expr) ==> post == pre
}

/// What bracketing the pass entry does to the edit list: when the entry
/// is instrumentable, the start hook goes before the body's first
/// statement and every return statement is wrapped; otherwise nothing is
/// added.
pub open spec fn entry_edits_ok(
    t: SyntaxTree,
    code: Seq<u8>,
    fname: Seq<char>,
    pe: int,
    pre: Seq<Edit>,
    post: Seq<Edit>,
) -> bool {
    &&& edits_extend(pre, post)
    &&& entry_instrumentable(t, code, pe) ==> exists|
        rets: Seq<usize>,
        c0: String,
    |
        #![trigger rets.len(), c0@]
        ({
            let base = pre.len() as int;
            &&& forall|c: int| 0 <= c < rets.len() ==> (#[trigger] rets[c]) < t.nodes@.len()
            &&& forall|c: int, d2: int| 0 <= c < d2 < rets.len() ==> rets[c] < rets[d2]
            &&& forall|j: int|
                0 <= j < t.nodes@.len() ==> ((#[trigger] rets.contains(j as usize)) <==> (
                in_subtree(t, entry_body(t, pe), j) && t.nodes@[j].kind
                    == NodeKind::ReturnStatement))
            &&& post.len() == base + 1 + 2 * rets.len()
            &&& c0@ == tmpl_start(
                entry_target_text(t, code, pe),
                fname,
            )
            &&& post[base] == (Edit {
                content: c0,
                start_pos: t.nodes@[entry_body_first(t, pe)].start_byte,
                kind: EditKind::Insert,
            })
            &&& forall|m: int|
                0 <= m < rets.len() ==> exists|c1: String, c2: String|
                    #![trigger c1@, c2@]
                    (c1@ == tmpl_finish_open() && c2@ == tmpl_scope_close() && post[base + 1
                        + 2 * m] == (Edit {
                        content: c1,
                        start_pos: t.nodes@[(#[trigger] rets[m]) as int].start_byte,
                        kind: EditKind::Insert,
                    }) && post[base + 2 + 2 * m] == (Edit {
                        content: c2,
                        start_pos: t.nodes@[rets[m] as int].end_byte,
                        kind: EditKind::Insert,
                    }))
        })
    &&& !entry_instrumentable(t, code, pe) ==> post == pre
}


/// `p` is the start offset of an include directive and no include directive
/// starts earlier: the monitor header goes immediately before the first
/// pre-existing include.
pub open spec fn header_insert_at(t: SyntaxTree, p: usize) -> bool {
    &&& exists|j: int|
        0 <= j < t.nodes@.len() && in_subtree(t, 0, j) && (#[trigger] t.nodes@[j]).kind
            == NodeKind::PreprocInclude && t.nodes@[j].start_byte == p
    &&& forall|j: int|
        0 <= j < t.nodes@.len() && in_subtree(t, 0, j) && (#[trigger] t.nodes@[j]).kind
            == NodeKind::PreprocInclude ==> p <= t.nodes@[j].start_byte
}

/// The start hook statement placed before the first statement of the pass
/// entry body.
pub open spec fn tmpl_start(target: Seq<char>, pass_name: Seq<char>) -> Seq<char> {
    spec_on_start(target, pass_name) + ";\n  "@
}

/// Scope open with the finish hook preceding a return statement.
pub open spec fn tmpl_finish_open() -> Seq<char> {
    "{ "@ + spec_on_finish() + "; "@
}

fn close_anchor(t: &SyntaxTree, i: usize) -> (r: usize)
    requires
        t.wf(),
        i < t.nodes@.len(),
    ensures
        r as int == stmt_close_anchor(*t, i as int),
{
    proof {
        assert(t.node_wf(t.nodes@[i as int], i as int));
    }
    let p = t.nodes[i].parent;
    proof {
        assert(t.node_wf(t.nodes@[p as int], p as int));
    }
    if t.nodes[p].kind == NodeKind::ExpressionStatement {
        t.nodes[p].end_byte
    } else {
        t.nodes[i].end_byte + 1
    }
}

fn build_create_decl(var: &str, row: usize) -> (r: String)
    ensures
        r@ == tmpl_create_decl(var@, row as nat),
{
    let mut s = String::from_str(" ");
    let h = hook::on_create(var, row, var);
    s.append(h.as_str());
    s.append(";");
    proof {
        assert(s@ =~= tmpl_create_decl(var@, row as nat));
    }
    s
}

fn build_create_assign_close(var: &str, row: usize) -> (r: String)
    ensures
        r@ == tmpl_create_assign_close(var@, row as nat),
{
    let mut s = String::from_str(" ");
    let h = hook::on_create(var, row, var);
    s.append(h.as_str());
    s.append("; }");
    proof {
        assert(s@ =~= tmpl_create_assign_close(var@, row as nat));
    }
    s
}

fn build_create_return(call_src: &str, row: usize) -> (r: String)
    ensures
        r@ == tmpl_create_return(call_src@, row as nat),
{
    let mut s = String::from_str("{ auto *V = ");
    s.append(call_src);
    s.append("; ");
    let h = hook::on_create("V", row, "");
    s.append(h.as_str());
    s.append("; return V; }");
    proof {
        assert(s@ =~= tmpl_create_return(call_src@, row as nat));
    }
    s
}

fn build_create_return_new(src: &str, row: usize) -> (r: String)
    ensures
        r@ == tmpl_create_return_new(src@, row as nat),
{
    let mut s = String::from_str("{ Value *V = ");
    s.append(src);
    s.append("; ");
    let h = hook::on_create("V", row, "");
    s.append(h.as_str());
    s.append("; return V; }");
    proof {
        assert(s@ =~= tmpl_create_return_new(src@, row as nat));
    }
    s
}

fn build_create_bare(call_src: &str, row: usize) -> (r: String)
    ensures
        r@ == tmpl_create_bare(call_src@, row as nat),
{
    let mut s = String::from_str("Instruction *I = ");
    s.append(call_src);
    s.append("; ");
    let h = hook::on_create("I", row, "I");
    s.append(h.as_str());
    s.append(";");
    proof {
        assert(s@ =~= tmpl_create_bare(call_src@, row as nat));
    }
    s
}

fn build_clone_decl(var: &str, old_ref: &str, old_name: &str, row: usize) -> (r: String)
    ensures
        r@ == tmpl_clone_decl(var@, old_ref@, old_name@, row as nat),
{
    let mut s = String::from_str(" ");
    let h = hook::on_clone(var, old_ref, row, var, old_name);
    s.append(h.as_str());
    s.append(";");
    proof {
        assert(s@ =~= tmpl_clone_decl(var@, old_ref@, old_name@, row as nat));
    }
    s
}

fn build_clone_assign_close(var: &str, old_ref: &str, old_name: &str, row: usize) -> (r: String)
    ensures
        r@ == tmpl_clone_assign_close(var@, old_ref@, old_name@, row as nat),
{
    let mut s = String::from_str(" ");
    let h = hook::on_clone(var, old_ref, row, var, old_name);
    s.append(h.as_str());
    s.append("; }");
    proof {
        assert(s@ =~= tmpl_clone_assign_close(var@, old_ref@, old_name@, row as nat));
    }
    s
}

fn build_move_close(target_ref: &str, target: &str, row: usize) -> (r: String)
    ensures
        r@ == tmpl_move_close(target_ref@, target@, row as nat),
{
    let mut s = String::from_str(" ");
    let h = hook::on_move(target_ref, row, target);
    s.append(h.as_str());
    s.append("; }");
    proof {
        assert(s@ =~= tmpl_move_close(target_ref@, target@, row as nat));
    }
    s
}

fn build_use_replace_all(amp: &str, src: &str, dst: &str, row: usize) -> (r: String)
    ensures
        r@ == tmpl_use_replace_all(amp@, src@, dst@, row as nat),
{
    let mut s = String::from_str("{ Value *DebugLocSrc = ");
    s.append(amp);
    s.append(src);
    s.append("; Value *DebugLocDst = ");
    s.append(dst);
    s.append("; DebugLocSrc->replaceAllUsesWith(DebugLocDst); ");
    let h = hook::on_use_replace("DebugLocSrc", "DebugLocDst", row, dst, src);
    s.append(h.as_str());
    s.append("; }");
    proof {
        assert(s@ =~= tmpl_use_replace_all(amp@, src@, dst@, row as nat));
    }
    s
}

fn build_use_replace_of(obj: &str, op: &str, old_v: &str, new_v: &str, row: usize) -> (r: String)
    ensures
        r@ == tmpl_use_replace_of(obj@, op@, old_v@, new_v@, row as nat),
{
    let mut s = String::from_str("{ Value *DebugLocSrc = ");
    s.append(old_v);
    s.append("; Value *DebugLocDst = ");
    s.append(new_v);
    s.append("; ");
    s.append(obj);
    s.append(op);
    s.append("replaceUsesOfWith(DebugLocSrc, DebugLocDst); ");
    let h = hook::on_use_replace("DebugLocSrc", "DebugLocDst", row, new_v, old_v);
    s.append(h.as_str());
    s.append("; }");
    proof {
        assert(s@ =~= tmpl_use_replace_of(obj@, op@, old_v@, new_v@, row as nat));
    }
    s
}

fn build_remove_open(obj: &str, row: usize) -> (r: String)
    ensures
        r@ == tmpl_remove_open(obj@, row as nat),
{
    let mut s = String::from_str("{ ");
    let h = hook::on_remove(obj, row, obj);
    s.append(h.as_str());
    s.append("; ");
    proof {
        assert(s@ =~= tmpl_remove_open(obj@, row as nat));
    }
    s
}

fn build_preserve_close(val: &str, row: usize) -> (r: String)
    ensures
        r@ == tmpl_preserve_close(val@, row as nat),
{
    let mut s = String::from_str(" ");
    let h = hook::on_preserve(val, row);
    s.append(h.as_str());
    s.append("; }");
    proof {
        assert(s@ =~= tmpl_preserve_close(val@, row as nat));
    }
    s
}

fn build_merge_close(val: &str, row: usize) -> (r: String)
    ensures
        r@ == tmpl_merge_close(val@, row as nat),
{
    let mut s = String::from_str(" ");
    let h = hook::on_merge(val, row);
    s.append(h.as_str());
    s.append("; }");
    proof {
        assert(s@ =~= tmpl_merge_close(val@, row as nat));
    }
    s
}

fn build_drop_close(val: &str, row: usize) -> (r: String)
    ensures
        r@ == tmpl_drop_close(val@, row as nat),
{
    let mut s = String::from_str(" ");
    let h = hook::on_drop(val, row);
    s.append(h.as_str());
    s.append("; }");
    proof {
        assert(s@ =~= tmpl_drop_close(val@, row as nat));
    }
    s
}

fn build_start(target: &str, pass_name: &str) -> (r: String)
    ensures
        r@ == tmpl_start(target@, pass_name@),
{
    let mut s = hook::on_start(target, pass_name);
    s.append(";\n  ");
    proof {
        assert(s@ =~= tmpl_start(target@, pass_name@));
    }
    s
}

fn build_finish_open() -> (r: String)
    ensures
        r@ == tmpl_finish_open(),
{
    let mut s = String::from_str("{ ");
    let h = hook::on_finish();
    s.append(h.as_str());
    s.append("; ");
    proof {
        assert(s@ =~= tmpl_finish_open());
    }
    s
}

/// Per-file engine state: the collected edits, the diagnostics, and the
/// file name embedded in generated start hooks. Reset between files.
pub struct Instrumenter {
    edits: Vec<Edit>,
    warnings: Vec<Warning>,
    target_file: String,
}

impl Instrumenter {
    /// The edits collected so far for the current file.
    pub closed spec fn pending_edits(&self) -> Seq<Edit> {
        self.edits@
    }

    /// The diagnostics gathered so far for the current file.
    pub closed spec fn pending_warnings(&self) -> Seq<Warning> {
        self.warnings@
    }

    /// The file name embedded in generated start hooks.
    pub closed spec fn target_name(&self) -> Seq<char> {
        self.target_file@
    }

    /// A fresh engine with no pending state.
    pub fn new() -> (r: Instrumenter)
        ensures
            r.pending_edits().len() == 0,
            r.pending_warnings().len() == 0,
            r.target_name().len() == 0,
    {
        Instrumenter { edits: Vec::new(), warnings: Vec::new(), target_file: String::new() }
    }

    fn reset(&mut self)
        ensures
            final(self).pending_edits().len() == 0,
            final(self).pending_warnings().len() == 0,
            final(self).target_name().len() == 0,
    {
        self.edits = Vec::new();
        self.warnings = Vec::new();
        self.target_file = String::new();
    }

    /// Records a point insertion at `insert_pos`.
    fn add_insert_edit(&mut self, content: String, insert_pos: usize)
        ensures
            final(self).edits@ == old(self).edits@.push(
                (Edit { content, start_pos: insert_pos, kind: EditKind::Insert }),
            ),
            final(self).target_name() == old(self).target_name(),
            final(self).pending_warnings() == old(self).pending_warnings(),
    {
        self.edits.push(Edit::new_insert(content, insert_pos));
    }

    /// Records a replacement of `start_pos..end_pos`.
    fn add_replace_edit(&mut self, content: String, start_pos: usize, end_pos: usize)
        ensures
            final(self).edits@ == old(self).edits@.push(
                (Edit { content, start_pos, kind: EditKind::Replace(end_pos) }),
            ),
            final(self).target_name() == old(self).target_name(),
            final(self).pending_warnings() == old(self).pending_warnings(),
    {
        self.edits.push(Edit::new_replace(content, start_pos, end_pos));
    }

    fn warn(&mut self, row: usize, kind: WarnKind, excerpt: Vec<u8>)
        ensures
            final(self).pending_edits() == old(self).pending_edits(),
            final(self).target_name() == old(self).target_name(),
            final(self).pending_warnings() == old(self).pending_warnings().push(
                (Warning { row, kind, excerpt }),
            ),
    {
        self.warnings.push(Warning { row, kind, excerpt });
    }

    /// Turns extracted bytes into a string, or records a diagnostic. On
    /// success the string's characters are exactly the decoding of the
    /// bytes.
    fn text_of(&mut self, bytes: Vec<u8>, row: usize) -> (r: Option<String>)
        ensures
            final(self).pending_edits() == old(self).pending_edits(),
            final(self).target_name() == old(self).target_name(),
            r matches Some(s) ==> s@ == decode_utf8(bytes@),
            r is Some ==> final(self).pending_warnings() == old(self).pending_warnings(),
            valid_utf8(bytes@) <==> r is Some,
    {
        match ts::string_from_utf8(bytes) {
            Some(s) => {
                proof {
                    vstd::utf8::encode_utf8_decode_utf8(s@);
                    vstd::utf8::encode_utf8_valid_utf8(s@);
                }
                Some(s)
            },
            None => {
                self.warn(row, WarnKind::NonUtf8Text, Vec::new());
                None
            },
        }
    }

    /// The law of declaration-bound creation sites: instrumenting one adds
    /// exactly one point insertion, placed at the declaration's end (so the
    /// hook runs strictly after the declaration and before the next
    /// statement), whose content is a single creation hook statement
    /// passing the bound variable as both value and quoted name, with the
    /// given row; or, when the variable's text cannot be extracted, adds
    /// nothing.
    fn instrument_create_decl(
        &mut self,
        t: &SyntaxTree,
        code: &Vec<u8>,
        site: usize,
        decl: usize,
        row: usize,
        new_site: bool,
    )
        requires
            t.wf(),
            t.code_len == code@.len(),
            site < t.nodes@.len(),
            decl < t.nodes@.len(),
        ensures
            edits_extend(old(self).pending_edits(), final(self).pending_edits()),
            final(self).target_name() == old(self).target_name(),
            create_decl_applies(*t, code@, decl as int) ==> exists|c: String|
                #![trigger c@]
                (c@ == tmpl_create_decl(create_decl_var_text(*t, code@, decl as int), row as nat)
                    && final(self).pending_edits() == old(self).pending_edits().push(
                    (Edit {
                        content: c,
                        start_pos: t.nodes@[decl as int].end_byte,
                        kind: EditKind::Insert,
                    }),
                )),
            !create_decl_applies(*t, code@, decl as int)
                ==> final(self).pending_edits() == old(self).pending_edits(),
            spec_decl_var(*t, decl as int) is None ==> ({
                let ws = final(self).pending_warnings();
                &&& ws.len() == old(self).pending_warnings().len() + 1
                &&& ws.last().row == row
                &&& ws.last().kind == (if new_site {
                    WarnKind::UnsupportedNewExpr
                } else {
                    WarnKind::UnsupportedContext
                })
                &&& ws.last().excerpt@ == node_source(*t, code@, site as int)
            }),
    {
        proof {
            assert(t.node_wf(t.nodes@[site as int], site as int));
            assert(t.node_wf(t.nodes@[decl as int], decl as int));
        }
        let var = match get_var_name_from_decl(t, decl) {
            Some(v) => v,
            None => {
                let excerpt = t.nodes[site].to_source(code);
                let ghost exv = excerpt;
                let wk = if new_site {
                    WarnKind::UnsupportedNewExpr
                } else {
                    WarnKind::UnsupportedContext
                };
                self.warn(row, wk, excerpt);
                proof {
                    assert(exv@ == node_source(*t, code@, site as int));
                    assert(self.pending_warnings().last() == (Warning {
                        row,
                        kind: wk,
                        excerpt: exv,
                    }));
                }
                return ;
            },
        };
        proof {
            assert(t.node_wf(t.nodes@[var as int], var as int));
        }
        let var_bytes = t.nodes[var].to_source(code);
        let var_str = match self.text_of(var_bytes, row) {
            Some(s) => s,
            None => {
                return ;
            },
        };
        let content = build_create_decl(var_str.as_str(), row);
        let ghost vchars = var_str@;
        let ghost cval = content;
        self.add_insert_edit(content, t.nodes[decl].end_byte);
        proof {
            assert(vchars == create_decl_var_text(*t, code@, decl as int));
            assert(cval@ == tmpl_create_decl(create_decl_var_text(*t, code@, decl as int), row as nat));
        }
    }

    /// The law of the header insertion: exactly one insert edit is added,
    /// carrying the monitor include, at the smallest start offset of the
    /// file's include directives.
    fn visit_header_includes(&mut self, t: &SyntaxTree, includes: &Vec<usize>)
        requires
            t.wf(),
            includes@.len() > 0,
            forall|c: int| 0 <= c < includes@.len() ==> (#[trigger] includes@[c]) < t.nodes@.len(),
            forall|j: int|
                0 <= j < t.nodes@.len() ==> ((#[trigger] includes@.contains(j as usize)) <==> (
                in_subtree(*t, 0, j) && t.nodes@[j].kind == NodeKind::PreprocInclude)),
        ensures
            final(self).target_name() == old(self).target_name(),
            final(self).pending_warnings() == old(self).pending_warnings(),
            exists|c: String, p: usize|
                #![trigger c@, header_insert_at(*t, p)]
                (c@ == HEADER_INCLUDE@ && header_insert_at(*t, p)
                    && final(self).pending_edits() == old(self).pending_edits().push(
                    (Edit { content: c, start_pos: p, kind: EditKind::Insert }),
                )),
    {
        let mut min_start = t.nodes[includes[0]].start_byte;
        let ghost mut witness: int = includes@[0] as int;
        proof {
            assert(includes@.contains(includes@[0]));
        }
        let mut i: usize = 1;
        while i < includes.len()
            invariant
                t.wf(),
                includes@.len() > 0,
                forall|c: int|
                    0 <= c < includes@.len() ==> (#[trigger] includes@[c]) < t.nodes@.len(),
                i <= includes@.len(),
                0 <= witness < t.nodes@.len(),
                includes@.contains(witness as usize),
                min_start == t.nodes@[witness].start_byte,
                forall|c: int|
                    0 <= c < i ==> min_start <= t.nodes@[(#[trigger] includes@[c]) as int].start_byte,
            decreases includes@.len() - i,
        {
            let sb = t.nodes[includes[i]].start_byte;
            if sb < min_start {
                min_start = sb;
                proof {
                    witness = includes@[i as int] as int;
                    assert(includes@.contains(includes@[i as int]));
                }
            }
            i = i + 1;
        }
        let total = t.nodes.len();
        let content = String::from_str(hook::HEADER_INCLUDE);
        let ghost c = content;
        self.add_insert_edit(content, min_start);
        proof {
            assert(t.nodes@.len() == total as int);
            assert(c@ == HEADER_INCLUDE@);
            assert(in_subtree(*t, 0, witness) && t.nodes@[witness].kind
                == NodeKind::PreprocInclude);
            assert(header_insert_at(*t, min_start)) by {
                assert(t.nodes@[witness].start_byte == min_start);
                assert forall|j: int|
                    0 <= j < t.nodes@.len() && in_subtree(*t, 0, j) && (#[trigger] t.nodes@[j]).kind
                        == NodeKind::PreprocInclude implies min_start <= t.nodes@[j].start_byte by {
                    assert(includes@.contains(j as usize));
                    let ci = choose|ci: int| 0 <= ci < includes@.len() && includes@[ci] == j as usize;
                    assert(includes@[ci] == j as usize);
                    assert(min_start <= t.nodes@[(includes@[ci]) as int].start_byte);
                    assert((includes@[ci]) as int == j);
                }
            }
        }
    }

    /// Wraps the pass entry point: a start hook as the body's first
    /// statement and a finish hook around every return.
    fn collect_init_and_clean_up_edit(
        &mut self,
        t: &SyntaxTree,
        code: &Vec<u8>,
        pass_entry: usize,
    ) -> (r: Result<(), InstError>)
        requires
            t.wf(),
            t.code_len == code@.len(),
            pass_entry < t.nodes@.len(),
        ensures
            edits_extend(old(self).pending_edits(), final(self).pending_edits()),
            final(self).target_name() == old(self).target_name(),
            r is Err ==> final(self).pending_edits() == old(self).pending_edits(),
            r is Err ==> r == Err::<(), InstError>(InstError::MissingParamList),
            r is Err <==> entry_missing_params(*t, code@, pass_entry as int),
            r is Ok ==> entry_edits_ok(
                *t,
                code@,
                old(self).target_name(),
                pass_entry as int,
                old(self).pending_edits(),
                final(self).pending_edits(),
            ),
    {
        let declarator = match child_by_field(t, pass_entry, FieldTag::Declarator) {
            Some(d) => d,
            None => {
                return Err(InstError::MissingParamList);
            },
        };
        let param_list = match child_by_field(t, declarator, FieldTag::Parameters) {
            Some(p) => p,
            None => {
                return Err(InstError::MissingParamList);
            },
        };
        let params = get_children_of_kind(t, param_list, NodeKind::ParameterDeclaration);
        proof {
            crate::visit::lemma_collected_head(
                *t,
                param_list as int,
                NodeKind::ParameterDeclaration,
                params@,
            );
        }
        if params.len() == 0 {
            return Err(InstError::MissingParamList);
        }
        let p0 = params[0];
        proof {
            assert(entry_first_param(*t, pass_entry as int) == Some(p0 as int));
            assert(t.node_wf(t.nodes@[p0 as int], p0 as int));
        }
        let ty = match child_by_field(t, p0, FieldTag::Ty) {
            Some(n) => n,
            None => {
                return Err(InstError::MissingParamList);
            },
        };
        proof {
            assert(t.node_wf(t.nodes@[ty as int], ty as int));
        }
        let ty_bytes = t.nodes[ty].to_source(code);
        let row = t.nodes[pass_entry].row();
        let ty_str = match self.text_of(ty_bytes, row) {
            Some(s) => s,
            None => {
                return Ok(());
            },
        };
        let recognized = str_eq(ty_str.as_str(), "Function") || str_eq(ty_str.as_str(), "Loop")
            || str_eq(ty_str.as_str(), "LoopNest");
        if !recognized {
            let excerpt = t.nodes[ty].to_source(code);
            self.warn(row, WarnKind::UnknownPassTarget, excerpt);
            return Ok(());
        }
        let pd = match child_by_field(t, p0, FieldTag::Declarator) {
            Some(d) => d,
            None => {
                return Err(InstError::MissingParamList);
            },
        };
        let target_node = match child_at(t, pd, 1) {
            Some(c) => c,
            None => {
                return Err(InstError::MissingParamList);
            },
        };
        proof {
            assert(t.node_wf(t.nodes@[target_node as int], target_node as int));
        }
        let target_bytes = t.nodes[target_node].to_source(code);
        let target = match self.text_of(target_bytes, row) {
            Some(s) => s,
            None => {
                return Ok(());
            },
        };
        let body = match child_by_field(t, pass_entry, FieldTag::Body) {
            Some(b) => b,
            None => {
                let excerpt = t.nodes[pass_entry].to_source(code);
                self.warn(row, WarnKind::UnsupportedContext, excerpt);
                return Ok(());
            },
        };
        let first_stmt = match child_at(t, body, 1) {
            Some(c) => c,
            None => {
                let excerpt = t.nodes[body].to_source(code);
                self.warn(row, WarnKind::UnsupportedContext, excerpt);
                return Ok(());
            },
        };
        proof {
            assert(t.node_wf(t.nodes@[first_stmt as int], first_stmt as int));
        }
        let tf = self.target_file.clone();
        let init = build_start(target.as_str(), tf.as_str());
        let ghost c0 = init;
        let ghost fs_start = t.nodes@[first_stmt as int].start_byte;
        self.add_insert_edit(init, t.nodes[first_stmt].start_byte);
        proof {
            assert(c0@ == tmpl_start(
                entry_target_text(*t, code@, pass_entry as int),
                old(self).target_name(),
            ));
            assert(first_stmt as int == entry_body_first(*t, pass_entry as int));
        }
        let ret_stmts = get_children_of_kind(t, body, NodeKind::ReturnStatement);
        let ghost mid = self.pending_edits();
        let mut i: usize = 0;
        while i < ret_stmts.len()
            invariant
                t.wf(),
                t.code_len == code@.len(),
                forall|c: int| 0 <= c < ret_stmts@.len() ==> (#[trigger] ret_stmts@[c]) < t.nodes@.len(),
                i <= ret_stmts@.len(),
                self.target_name() == old(self).target_name(),
                edits_extend(mid, self.pending_edits()),
                self.pending_edits().len() == mid.len() + 2 * i,
                forall|m: int|
                    0 <= m < i ==> exists|c1: String, c2: String|
                        #![trigger c1@, c2@]
                        (c1@ == tmpl_finish_open() && c2@ == tmpl_scope_close()
                            && self.pending_edits()[mid.len() + 2 * m] == (Edit {
                            content: c1,
                            start_pos: t.nodes@[(#[trigger] ret_stmts@[m]) as int].start_byte,
                            kind: EditKind::Insert,
                        }) && self.pending_edits()[mid.len() + 1 + 2 * m] == (Edit {
                            content: c2,
                            start_pos: t.nodes@[ret_stmts@[m] as int].end_byte,
                            kind: EditKind::Insert,
                        })),
            decreases ret_stmts@.len() - i,
        {
            let ghost b = self.pending_edits();
            self.wrap_return(t, ret_stmts[i]);
            proof {
                assert(edits_extend(b, self.pending_edits()));
                assert(edits_extend(mid, self.pending_edits()));
                let (w1, w2) = choose|w1: String, w2: String|
                    #![trigger w1@, w2@]
                    (w1@ == tmpl_finish_open() && w2@ == tmpl_scope_close()
                        && self.pending_edits() == b.push(
                        (Edit {
                            content: w1,
                            start_pos: t.nodes@[ret_stmts@[i as int] as int].start_byte,
                            kind: EditKind::Insert,
                        }),
                    ).push(
                        (Edit {
                            content: w2,
                            start_pos: t.nodes@[ret_stmts@[i as int] as int].end_byte,
                            kind: EditKind::Insert,
                        }),
                    ));
                assert(self.pending_edits()[mid.len() + 2 * i] == (Edit {
                    content: w1,
                    start_pos: t.nodes@[ret_stmts@[i as int] as int].start_byte,
                    kind: EditKind::Insert,
                }));
                assert forall|m: int| 0 <= m < i + 1 implies exists|c1: String, c2: String|
                    #![trigger c1@, c2@]
                    (c1@ == tmpl_finish_open() && c2@ == tmpl_scope_close()
                        && self.pending_edits()[mid.len() + 2 * m] == (Edit {
                        content: c1,
                        start_pos: t.nodes@[(#[trigger] ret_stmts@[m]) as int].start_byte,
                        kind: EditKind::Insert,
                    }) && self.pending_edits()[mid.len() + 1 + 2 * m] == (Edit {
                        content: c2,
                        start_pos: t.nodes@[ret_stmts@[m] as int].end_byte,
                        kind: EditKind::Insert,
                    })) by {
                    if m < i {
                        let (p1, p2) = choose|p1: String, p2: String|
                            #![trigger p1@, p2@]
                            (p1@ == tmpl_finish_open() && p2@ == tmpl_scope_close() && b[mid.len()
                                + 2 * m] == (Edit {
                                content: p1,
                                start_pos: t.nodes@[ret_stmts@[m] as int].start_byte,
                                kind: EditKind::Insert,
                            }) && b[mid.len() + 1 + 2 * m] == (Edit {
                                content: p2,
                                start_pos: t.nodes@[ret_stmts@[m] as int].end_byte,
                                kind: EditKind::Insert,
                            }));
                        assert(self.pending_edits()[mid.len() + 2 * m] == b[mid.len() + 2 * m]);
                        assert(self.pending_edits()[mid.len() + 1 + 2 * m] == b[mid.len() + 1 + 2
                            * m]);
                    }
                }
            }
            i = i + 1;
        }
        proof {
            assert(mid == old(self).pending_edits().push(
                (Edit { content: c0, start_pos: fs_start, kind: EditKind::Insert }),
            ));
            assert(self.pending_edits()[old(self).pending_edits().len() as int] == (Edit {
                content: c0,
                start_pos: fs_start,
                kind: EditKind::Insert,
            }));
        }
        Ok(())
    }

    /// The law of return statements in the pass entry point: each one is
    /// wrapped in a scope whose opening carries the finish hook, so the
    /// hook runs immediately before control leaves the function, and whose
    /// close follows the statement's end; the returned value expression is
    /// untouched.
    fn wrap_return(&mut self, t: &SyntaxTree, rn: usize)
        requires
            t.wf(),
            rn < t.nodes@.len(),
        ensures
            final(self).target_name() == old(self).target_name(),
            exists|c1: String, c2: String|
                #![trigger c1@, c2@]
                (c1@ == tmpl_finish_open() && c2@ == tmpl_scope_close()
                    && final(self).pending_edits() == old(self).pending_edits().push(
                    (Edit {
                        content: c1,
                        start_pos: t.nodes@[rn as int].start_byte,
                        kind: EditKind::Insert,
                    }),
                ).push(
                    (Edit {
                        content: c2,
                        start_pos: t.nodes@[rn as int].end_byte,
                        kind: EditKind::Insert,
                    }),
                )),
    {
        proof {
            assert(t.node_wf(t.nodes@[rn as int], rn as int));
        }
        let opener = build_finish_open();
        let ghost c1 = opener;
        self.add_insert_edit(opener, t.nodes[rn].start_byte);
        let close = String::from_str(" }");
        let ghost c2 = close;
        self.add_insert_edit(close, t.nodes[rn].end_byte);
        proof {
            assert(c1@ == tmpl_finish_open());
            assert(c2@ == tmpl_scope_close());
        }
    }

    /// Dispatches one classified call site to its context template: a site
    /// whose callee cannot be resolved, or whose name is outside the
    /// vocabulary, contributes nothing; recognized sites are governed by
    /// the per-kind laws on the handlers.
    fn handle_call(&mut self, t: &SyntaxTree, code: &Vec<u8>, call: usize)
        requires
            t.wf(),
            t.code_len == code@.len(),
            call < t.nodes@.len(),
        ensures
            call_site_ok(
                *t,
                code@,
                call as int,
                old(self).pending_edits(),
                final(self).pending_edits(),
            ),
            final(self).target_name() == old(self).target_name(),
    {
        proof {
            assert(t.node_wf(t.nodes@[call as int], call as int));
        }
        let row = t.nodes[call].row();
        let callee = match child_by_field(t, call, FieldTag::Function) {
            Some(c) => c,
            None => {
                return ;
            },
        };
        let arguments = match child_by_field(t, call, FieldTag::Arguments) {
            Some(a) => a,
            None => {
                return ;
            },
        };
        proof {
            assert(t.node_wf(t.nodes@[callee as int], callee as int));
        }
        let is_field_expr = t.nodes[callee].kind == NodeKind::FieldExpression;
        let callee_name_node = if is_field_expr {
            match child_by_field(t, callee, FieldTag::FieldName) {
                Some(f) => f,
                None => {
                    return ;
                },
            }
        } else if t.nodes[callee].kind == NodeKind::QualifiedIdentifier {
            callee
        } else {
            return ;
        };
        proof {
            assert(t.node_wf(t.nodes@[callee_name_node as int], callee_name_node as int));
        }
        let name_bytes = t.nodes[callee_name_node].to_source(code);
        let callee_name = match self.text_of(name_bytes, row) {
            Some(s) => s,
            None => {
                return ;
            },
        };
        match callee_name.get_fn_kind() {
            Some(FnKind::Create) => {
                self.handle_create_call(t, code, call, row);
            },
            Some(FnKind::Clone) => {
                self.handle_clone_call(t, code, call, callee, row);
            },
            Some(FnKind::Move) => {
                self.handle_wrap_after(t, code, call, callee, row, FnKind::Move);
            },
            Some(FnKind::UseReplace) => {
                self.handle_use_replace(t, code, call, callee, arguments, &callee_name, row);
            },
            Some(FnKind::Remove) => {
                self.handle_remove(t, code, call, callee, row);
            },
            Some(FnKind::DLPreserve) => {
                self.handle_wrap_after(t, code, call, callee, row, FnKind::DLPreserve);
            },
            Some(FnKind::DLMerge) => {
                self.handle_wrap_after(t, code, call, callee, row, FnKind::DLMerge);
            },
            Some(FnKind::DLDrop) => {
                self.handle_wrap_after(t, code, call, callee, row, FnKind::DLDrop);
            },
            None => {},
        }
    }

    /// Whether `i`'s direct parent is an expression statement.
    fn parent_is_expr_stmt(&self, t: &SyntaxTree, i: usize) -> (r: bool)
        requires
            t.wf(),
            i < t.nodes@.len(),
        ensures
            r == spec_parent_is_expr_stmt(*t, i as int),
    {
        proof {
            assert(t.node_wf(t.nodes@[i as int], i as int));
        }
        let p = t.nodes[i].parent;
        t.nodes[p].kind == NodeKind::ExpressionStatement
    }

    /// The law of creation call sites, one disjunct per context of the
    /// dispatch table: a declaration gains one hook insertion at its end; an
    /// assignment is wrapped in a scope whose close carries the hook; a
    /// return statement is replaced by a block that binds a fresh temporary,
    /// reports it, and returns it; a bare call statement is replaced by a
    /// binding to a fresh temporary followed by the hook. A site in no
    /// handled context, or whose text cannot be extracted, adds nothing.
    fn handle_create_call(&mut self, t: &SyntaxTree, code: &Vec<u8>, call: usize, row: usize)
        requires
            t.wf(),
            t.code_len == code@.len(),
            call < t.nodes@.len(),
            row as nat == row_of(*t, call as int),
        ensures
            create_site_ok(
                *t,
                code@,
                call as int,
                old(self).pending_edits(),
                final(self).pending_edits(),
            ),
            final(self).target_name() == old(self).target_name(),
    {
        if let Some(decl) = get_parent_of_kind(t, call, NodeKind::Declaration) {
            proof {
                assert(t.node_wf(t.nodes@[decl as int], decl as int));
            }
            let drow = t.nodes[decl].row();
            self.instrument_create_decl(t, code, call, decl, drow, false);
            proof {
                if create_decl_applies(*t, code@, decl as int) {
                    let c = choose|c: String|
                        #![trigger c@]
                        (c@ == tmpl_create_decl(
                            create_decl_var_text(*t, code@, decl as int),
                            drow as nat,
                        ) && self.pending_edits() == old(self).pending_edits().push(
                            (Edit {
                                content: c,
                                start_pos: t.nodes@[decl as int].end_byte,
                                kind: EditKind::Insert,
                            }),
                        ));
                    assert(drow as nat == (t.nodes@[decl as int].row0 + 1) as nat);
                    assert(t.nodes@[decl as int].kind == NodeKind::Declaration);
                }
            }
            return ;
        }
        if let Some(assign) = get_parent_of_kind(t, call, NodeKind::AssignmentExpression) {
            proof {
                assert(t.node_wf(t.nodes@[assign as int], assign as int));
            }
            let var = match get_var_name_from_assign(t, assign) {
                Some(v) => v,
                None => {
                    let excerpt = t.nodes[call].to_source(code);
                    let ghost exv = excerpt;
                    self.warn(row, WarnKind::UnsupportedContext, excerpt);
                    proof {
                        assert(exv@ == node_source(*t, code@, call as int));
                        assert(self.pending_warnings().last() == (Warning {
                            row,
                            kind: WarnKind::UnsupportedContext,
                            excerpt: exv,
                        }));
                    }
                    return ;
                },
            };
            proof {
                assert(t.node_wf(t.nodes@[var as int], var as int));
            }
            let arow = t.nodes[assign].row();
            let var_bytes = t.nodes[var].to_source(code);
            let var_str = match self.text_of(var_bytes, arow) {
                Some(s) => s,
                None => {
                    return ;
                },
            };
            let opener = String::from_str("{ ");
            let ghost c1 = opener;
            self.add_insert_edit(opener, t.nodes[assign].start_byte);
            let content = build_create_assign_close(var_str.as_str(), arow);
            let ghost c2 = content;
            self.add_insert_edit(content, close_anchor(t, assign));
            proof {
                assert(c1@ == tmpl_open_scope());
                assert(var_str@ == assign_var_text(*t, code@, assign as int));
                assert(c2@ == tmpl_create_assign_close(
                    assign_var_text(*t, code@, assign as int),
                    row_of(*t, assign as int),
                ));
            }
            return ;
        }
        if let Some(ret) = get_parent_of_kind(t, call, NodeKind::ReturnStatement) {
            proof {
                assert(t.node_wf(t.nodes@[ret as int], ret as int));
            }
            let rrow = t.nodes[ret].row();
            let src_bytes = t.nodes[call].to_source(code);
            let src = match self.text_of(src_bytes, rrow) {
                Some(s) => s,
                None => {
                    return ;
                },
            };
            let content = build_create_return(src.as_str(), rrow);
            let ghost c = content;
            self.add_replace_edit(content, t.nodes[ret].start_byte, t.nodes[ret].end_byte);
            proof {
                assert(src@ == node_text(*t, code@, call as int));
                assert(c@ == tmpl_create_return(
                    node_text(*t, code@, call as int),
                    row_of(*t, ret as int),
                ));
            }
            return ;
        }
        if self.parent_is_expr_stmt(t, call) {
            let src_bytes = t.nodes[call].to_source(code);
            let src = match self.text_of(src_bytes, row) {
                Some(s) => s,
                None => {
                    return ;
                },
            };
            let content = build_create_bare(src.as_str(), row);
            let ghost c = content;
            self.add_replace_edit(content, t.nodes[call].start_byte, t.nodes[call].end_byte);
            proof {
                assert(src@ == node_text(*t, code@, call as int));
                assert(c@ == tmpl_create_bare(node_text(*t, code@, call as int), row as nat));
            }
        }
    }

    /// The law of duplication sites: instrumenting one either appends the
    /// clone hook insertion after the enclosing declaration, or wraps the
    /// enclosing assignment in a scope whose close carries the clone hook;
    /// in both cases the hook names the new and the original value, and the
    /// row is the enclosing construct's. Sites in any other context, and
    /// sites whose text cannot be extracted, add nothing.
    fn handle_clone_call(
        &mut self,
        t: &SyntaxTree,
        code: &Vec<u8>,
        call: usize,
        callee: usize,
        row: usize,
    )
        requires
            t.wf(),
            t.code_len == code@.len(),
            call < t.nodes@.len(),
            callee < t.nodes@.len(),
        ensures
            edits_extend(old(self).pending_edits(), final(self).pending_edits()),
            final(self).target_name() == old(self).target_name(),
            clone_base_applies(*t, code@, callee as int) ==> ({
                let orf = wrap_target_ref(*t, code@, callee as int);
                let on = wrap_target_text(*t, code@, callee as int);
                let d = anc_or(*t, call as int, NodeKind::Declaration);
                let a = anc_or(*t, call as int, NodeKind::AssignmentExpression);
                &&& (d >= 0 && create_decl_applies(*t, code@, d)) ==> exists|c: String|
                    #![trigger c@]
                    (c@ == tmpl_clone_decl(
                        create_decl_var_text(*t, code@, d),
                        orf,
                        on,
                        row_of(*t, d),
                    ) && final(self).pending_edits() == old(self).pending_edits().push(
                        (Edit {
                            content: c,
                            start_pos: t.nodes@[d].end_byte,
                            kind: EditKind::Insert,
                        }),
                    ))
                &&& (d < 0 && a >= 0 && assign_applies(*t, code@, a)) ==> exists|
                    c1: String,
                    c2: String,
                |
                    #![trigger c1@, c2@]
                    (c1@ == tmpl_open_scope() && c2@ == tmpl_clone_assign_close(
                        assign_var_text(*t, code@, a),
                        orf,
                        on,
                        row_of(*t, a),
                    ) && final(self).pending_edits() == old(self).pending_edits().push(
                        (Edit {
                            content: c1,
                            start_pos: t.nodes@[a].start_byte,
                            kind: EditKind::Insert,
                        }),
                    ).push(
                        (Edit {
                            content: c2,
                            start_pos: stmt_close_anchor(*t, a) as usize,
                            kind: EditKind::Insert,
                        }),
                    ))
                &&& !((d >= 0 && create_decl_applies(*t, code@, d)) || (d < 0 && a >= 0
                    && assign_applies(*t, code@, a)))
                    ==> final(self).pending_edits() == old(self).pending_edits()
            }),
            !clone_base_applies(*t, code@, callee as int)
                ==> final(self).pending_edits() == old(self).pending_edits(),
            clone_context_unsupported(*t, code@, call as int, callee as int) ==> ({
                let ws = final(self).pending_warnings();
                &&& ws.len() == old(self).pending_warnings().len() + 1
                &&& ws.last().row == row
                &&& ws.last().kind == WarnKind::UnsupportedContext
                &&& ws.last().excerpt@ == node_source(*t, code@, call as int)
            }),
    {
        let orig = match child_by_field(t, callee, FieldTag::Argument) {
            Some(o) => o,
            None => {
                return ;
            },
        };
        proof {
            assert(t.node_wf(t.nodes@[orig as int], orig as int));
        }
        let arrow = self.accessor_is_arrow(t, code, callee, row);
        let arrow = match arrow {
            Some(b) => b,
            None => {
                return ;
            },
        };
        let orig_bytes = t.nodes[orig].to_source(code);
        let orig_str = match self.text_of(orig_bytes, row) {
            Some(s) => s,
            None => {
                return ;
            },
        };
        let mut old_ref = String::from_str(if arrow {
            ""
        } else {
            "&"
        });
        old_ref.append(orig_str.as_str());
        proof {
            reveal_strlit("");
            assert(old_ref@ =~= wrap_target_ref(*t, code@, callee as int));
            assert(orig_str@ == wrap_target_text(*t, code@, callee as int));
        }
        if let Some(decl) = get_parent_of_kind(t, call, NodeKind::Declaration) {
            proof {
                assert(t.node_wf(t.nodes@[decl as int], decl as int));
            }
            let var = match get_var_name_from_decl(t, decl) {
                Some(v) => v,
                None => {
                    let excerpt = t.nodes[call].to_source(code);
                    let ghost exv = excerpt;
                    self.warn(row, WarnKind::UnsupportedContext, excerpt);
                    proof {
                        assert(exv@ == node_source(*t, code@, call as int));
                        assert(self.pending_warnings().last() == (Warning {
                            row,
                            kind: WarnKind::UnsupportedContext,
                            excerpt: exv,
                        }));
                    }
                    return ;
                },
            };
            proof {
                assert(t.node_wf(t.nodes@[var as int], var as int));
            }
            let drow = t.nodes[decl].row();
            let var_bytes = t.nodes[var].to_source(code);
            let var_str = match self.text_of(var_bytes, drow) {
                Some(s) => s,
                None => {
                    return ;
                },
            };
            let content = build_clone_decl(
                var_str.as_str(),
                old_ref.as_str(),
                orig_str.as_str(),
                drow,
            );
            let ghost c = content;
            self.add_insert_edit(content, t.nodes[decl].end_byte);
            proof {
                assert(var_str@ == create_decl_var_text(*t, code@, decl as int));
                assert(c@ == tmpl_clone_decl(
                    create_decl_var_text(*t, code@, decl as int),
                    wrap_target_ref(*t, code@, callee as int),
                    wrap_target_text(*t, code@, callee as int),
                    row_of(*t, decl as int),
                ));
            }
            return ;
        }
        if let Some(assign) = get_parent_of_kind(t, call, NodeKind::AssignmentExpression) {
            proof {
                assert(t.node_wf(t.nodes@[assign as int], assign as int));
            }
            let var = match get_var_name_from_assign(t, assign) {
                Some(v) => v,
                None => {
                    let excerpt = t.nodes[call].to_source(code);
                    let ghost exv = excerpt;
                    self.warn(row, WarnKind::UnsupportedContext, excerpt);
                    proof {
                        assert(exv@ == node_source(*t, code@, call as int));
                        assert(self.pending_warnings().last() == (Warning {
                            row,
                            kind: WarnKind::UnsupportedContext,
                            excerpt: exv,
                        }));
                    }
                    return ;
                },
            };
            proof {
                assert(t.node_wf(t.nodes@[var as int], var as int));
            }
            let arow = t.nodes[assign].row();
            let var_bytes = t.nodes[var].to_source(code);
            let var_str = match self.text_of(var_bytes, arow) {
                Some(s) => s,
                None => {
                    return ;
                },
            };
            let opener = String::from_str("{ ");
            let ghost c1 = opener;
            self.add_insert_edit(opener, t.nodes[assign].start_byte);
            let content = build_clone_assign_close(
                var_str.as_str(),
                old_ref.as_str(),
                orig_str.as_str(),
                arow,
            );
            let ghost c2 = content;
            self.add_insert_edit(content, close_anchor(t, assign));
            proof {
                assert(c1@ == tmpl_open_scope());
                assert(var_str@ == assign_var_text(*t, code@, assign as int));
                assert(c2@ == tmpl_clone_assign_close(
                    assign_var_text(*t, code@, assign as int),
                    wrap_target_ref(*t, code@, callee as int),
                    wrap_target_text(*t, code@, callee as int),
                    row_of(*t, assign as int),
                ));
            }
            return ;
        }
        let excerpt = t.nodes[call].to_source(code);
        let ghost exv = excerpt;
        self.warn(row, WarnKind::UnsupportedContext, excerpt);
        proof {
            assert(exv@ == node_source(*t, code@, call as int));
            assert(self.pending_warnings().last() == (Warning {
                row,
                kind: WarnKind::UnsupportedContext,
                excerpt: exv,
            }));
        }
    }

    /// Whether the callee's accessor operator is `->` (as opposed to `.`).
    fn accessor_is_arrow(
        &mut self,
        t: &SyntaxTree,
        code: &Vec<u8>,
        callee: usize,
        row: usize,
    ) -> (r: Option<bool>)
        requires
            t.wf(),
            t.code_len == code@.len(),
            callee < t.nodes@.len(),
        ensures
            final(self).pending_edits() == old(self).pending_edits(),
            final(self).target_name() == old(self).target_name(),
            r is Some ==> final(self).pending_warnings() == old(self).pending_warnings(),
            accessor_readable(*t, code@, callee as int) ==> r == Some(
                accessor_arrow(*t, code@, callee as int),
            ),
            !accessor_readable(*t, code@, callee as int) ==> r is None,
    {
        let opn = match child_at(t, callee, 1) {
            Some(c) => c,
            None => {
                return None;
            },
        };
        proof {
            assert(t.node_wf(t.nodes@[opn as int], opn as int));
        }
        let op_bytes = t.nodes[opn].to_source(code);
        let op_str = match self.text_of(op_bytes, row) {
            Some(s) => s,
            None => {
                return None;
            },
        };
        let arrow = str_eq(op_str.as_str(), "->");
        proof {
            assert(op_str@ == node_text(*t, code@, t.nodes@[callee as int].children@[1] as int));
        }
        Some(arrow)
    }

    /// The law of relocation and debug-location sites: instrumenting one
    /// adds exactly a scope opening at the call's start and, at the
    /// enclosing statement's end, the matching hook call followed by the
    /// scope close, so the hook runs after the original call inside the new
    /// scope; or, when the site is not a bare statement or its text cannot
    /// be extracted, adds nothing.
    fn handle_wrap_after(
        &mut self,
        t: &SyntaxTree,
        code: &Vec<u8>,
        call: usize,
        callee: usize,
        row: usize,
        kind: FnKind,
    )
        requires
            t.wf(),
            t.code_len == code@.len(),
            call < t.nodes@.len(),
            callee < t.nodes@.len(),
        ensures
            edits_extend(old(self).pending_edits(), final(self).pending_edits()),
            final(self).target_name() == old(self).target_name(),
            wrap_after_applies(*t, code@, call as int, callee as int, kind) ==> exists|
                c1: String,
                c2: String,
            |
                #![trigger c1@, c2@]
                (c1@ == tmpl_open_scope() && c2@ == tmpl_wrap_close(
                    kind,
                    wrap_target_ref(*t, code@, callee as int),
                    wrap_target_text(*t, code@, callee as int),
                    row as nat,
                ) && final(self).pending_edits() == old(self).pending_edits().push(
                    (Edit {
                        content: c1,
                        start_pos: t.nodes@[call as int].start_byte,
                        kind: EditKind::Insert,
                    }),
                ).push(
                    (Edit {
                        content: c2,
                        start_pos: stmt_close_anchor(*t, call as int) as usize,
                        kind: EditKind::Insert,
                    }),
                )),
            !wrap_after_applies(*t, code@, call as int, callee as int, kind)
                ==> final(self).pending_edits() == old(self).pending_edits(),
            !spec_parent_is_expr_stmt(*t, call as int) ==> ({
                let ws = final(self).pending_warnings();
                &&& ws.len() == old(self).pending_warnings().len() + 1
                &&& ws.last().row == row
                &&& ws.last().kind == WarnKind::UnsupportedContext
                &&& ws.last().excerpt@ == node_source(*t, code@, call as int)
            }),
    {
        proof {
            assert(t.node_wf(t.nodes@[call as int], call as int));
        }
        if !self.parent_is_expr_stmt(t, call) {
            let excerpt = t.nodes[call].to_source(code);
            let ghost exv = excerpt;
            self.warn(row, WarnKind::UnsupportedContext, excerpt);
            proof {
                assert(exv@ == node_source(*t, code@, call as int));
                assert(self.pending_warnings() == old(self).pending_warnings().push(
                    (Warning { row, kind: WarnKind::UnsupportedContext, excerpt: exv }),
                ));
            }
            return ;
        }
        let target = match child_by_field(t, callee, FieldTag::Argument) {
            Some(o) => o,
            None => {
                return ;
            },
        };
        proof {
            assert(t.node_wf(t.nodes@[target as int], target as int));
        }
        let target_bytes = t.nodes[target].to_source(code);
        let target_str = match self.text_of(target_bytes, row) {
            Some(s) => s,
            None => {
                return ;
            },
        };
        let ghost mut moved_ref: Seq<char> = Seq::empty();
        let close = if kind == FnKind::Move {
            let arrow = match self.accessor_is_arrow(t, code, callee, row) {
                Some(b) => b,
                None => {
                    return ;
                },
            };
            let mut target_ref = String::from_str(
                if arrow {
                    ""
                } else {
                    "&"
                },
            );
            target_ref.append(target_str.as_str());
            proof {
                moved_ref = target_ref@;
            }
            build_move_close(target_ref.as_str(), target_str.as_str(), row)
        } else if kind == FnKind::DLPreserve {
            build_preserve_close(target_str.as_str(), row)
        } else if kind == FnKind::DLMerge {
            build_merge_close(target_str.as_str(), row)
        } else {
            build_drop_close(target_str.as_str(), row)
        };
        let opener = String::from_str("{ ");
        let ghost c1 = opener;
        let ghost c2 = close;
        let ghost trg = target_str@;
        self.add_insert_edit(opener, t.nodes[call].start_byte);
        self.add_insert_edit(close, close_anchor(t, call));
        proof {
            assert(c1@ == tmpl_open_scope());
            assert(trg == wrap_target_text(*t, code@, callee as int));
            if kind == FnKind::Move {
                reveal_strlit("");
                assert(moved_ref =~= wrap_target_ref(*t, code@, callee as int));
                assert(c2@ == tmpl_wrap_close(
                    kind,
                    wrap_target_ref(*t, code@, callee as int),
                    wrap_target_text(*t, code@, callee as int),
                    row as nat,
                ));
            } else {
                assert(c2@ == tmpl_wrap_close(
                    kind,
                    wrap_target_ref(*t, code@, callee as int),
                    wrap_target_text(*t, code@, callee as int),
                    row as nat,
                ));
            }
        }
    }

    /// The law of bare detachment sites: instrumenting one adds exactly a
    /// scope opening carrying one removal hook statement at the call's
    /// start (so the hook runs while the value is still valid, before the
    /// call detaches it) and a closing brace at the enclosing statement's
    /// end; or, when the site is not a bare statement or its text cannot
    /// be extracted, adds nothing.
    fn handle_remove(&mut self, t: &SyntaxTree, code: &Vec<u8>, call: usize, callee: usize, row:
        usize)
        requires
            t.wf(),
            t.code_len == code@.len(),
            call < t.nodes@.len(),
            callee < t.nodes@.len(),
        ensures
            edits_extend(old(self).pending_edits(), final(self).pending_edits()),
            final(self).target_name() == old(self).target_name(),
            remove_applies(*t, code@, call as int, callee as int) ==> exists|c1: String, c2: String|
                #![trigger c1@, c2@]
                (c1@ == tmpl_remove_open(remove_obj_text(*t, code@, callee as int), row as nat)
                    && c2@ == tmpl_scope_close()
                    && final(self).pending_edits() == old(self).pending_edits().push(
                    (Edit {
                        content: c1,
                        start_pos: t.nodes@[call as int].start_byte,
                        kind: EditKind::Insert,
                    }),
                ).push(
                    (Edit {
                        content: c2,
                        start_pos: stmt_close_anchor(*t, call as int) as usize,
                        kind: EditKind::Insert,
                    }),
                )),
            !remove_applies(*t, code@, call as int, callee as int) ==> final(self).pending_edits()
                == old(self).pending_edits(),
            !spec_parent_is_expr_stmt(*t, call as int) ==> ({
                let ws = final(self).pending_warnings();
                &&& ws.len() == old(self).pending_warnings().len() + 1
                &&& ws.last().row == row
                &&& ws.last().kind == WarnKind::UnsupportedContext
                &&& ws.last().excerpt@ == node_source(*t, code@, call as int)
            }),
    {
        proof {
            assert(t.node_wf(t.nodes@[call as int], call as int));
        }
        if !self.parent_is_expr_stmt(t, call) {
            let excerpt = t.nodes[call].to_source(code);
            let ghost exv = excerpt;
            self.warn(row, WarnKind::UnsupportedContext, excerpt);
            proof {
                assert(exv@ == node_source(*t, code@, call as int));
                assert(self.pending_warnings() == old(self).pending_warnings().push(
                    (Warning { row, kind: WarnKind::UnsupportedContext, excerpt: exv }),
                ));
            }
            return ;
        }
        let obj = match child_by_field(t, callee, FieldTag::Argument) {
            Some(o) => o,
            None => {
                return ;
            },
        };
        proof {
            assert(t.node_wf(t.nodes@[obj as int], obj as int));
        }
        let obj_bytes = t.nodes[obj].to_source(code);
        let obj_str = match self.text_of(obj_bytes, row) {
            Some(s) => s,
            None => {
                return ;
            },
        };
        let open = build_remove_open(obj_str.as_str(), row);
        let ghost objchars = obj_str@;
        let ghost c1 = open;
        self.add_insert_edit(open, t.nodes[call].start_byte);
        let close = String::from_str(" }");
        let ghost c2 = close;
        self.add_insert_edit(close, close_anchor(t, call));
        proof {
            assert(objchars == remove_obj_text(*t, code@, callee as int));
            assert(c1@ == tmpl_remove_open(remove_obj_text(*t, code@, callee as int), row as nat));
            assert(c2@ == tmpl_scope_close());
        }
    }

    /// The law of use-replacement sites: instrumenting one replaces the
    /// whole statement with a scope that materializes both operands into
    /// named temporaries exactly once, performs the replacement through the
    /// temporaries, and then reports them; the address is taken only when
    /// the receiver was accessed by value. Sites that are not bare
    /// statements, and sites whose text cannot be extracted, change
    /// nothing.
    fn handle_use_replace(
        &mut self,
        t: &SyntaxTree,
        code: &Vec<u8>,
        call: usize,
        callee: usize,
        arguments: usize,
        callee_name: &String,
        row: usize,
    )
        requires
            t.wf(),
            t.code_len == code@.len(),
            call < t.nodes@.len(),
            callee < t.nodes@.len(),
            arguments < t.nodes@.len(),
        ensures
            edits_extend(old(self).pending_edits(), final(self).pending_edits()),
            final(self).target_name() == old(self).target_name(),
            (callee_name@ == "replaceAllUsesWith"@ && use_replace_all_applies(
                *t,
                code@,
                call as int,
                callee as int,
                arguments as int,
            )) ==> exists|c: String|
                #![trigger c@]
                (c@ == tmpl_use_replace_all(
                    amp_of(*t, code@, callee as int),
                    wrap_target_text(*t, code@, callee as int),
                    arg_text(*t, code@, arguments as int, 1),
                    row as nat,
                ) && final(self).pending_edits() == old(self).pending_edits().push(
                    (Edit {
                        content: c,
                        start_pos: t.nodes@[call as int].start_byte,
                        kind: EditKind::Replace((stmt_close_anchor(*t, call as int) as usize)),
                    }),
                )),
            (callee_name@ != "replaceAllUsesWith"@ && use_replace_of_applies(
                *t,
                code@,
                call as int,
                callee as int,
                arguments as int,
            )) ==> exists|c: String|
                #![trigger c@]
                (c@ == tmpl_use_replace_of(
                    wrap_target_text(*t, code@, callee as int),
                    op_of(*t, code@, callee as int),
                    arg_text(*t, code@, arguments as int, 1),
                    arg_text(*t, code@, arguments as int, 3),
                    row as nat,
                ) && final(self).pending_edits() == old(self).pending_edits().push(
                    (Edit {
                        content: c,
                        start_pos: t.nodes@[call as int].start_byte,
                        kind: EditKind::Replace((stmt_close_anchor(*t, call as int) as usize)),
                    }),
                )),
            !((callee_name@ == "replaceAllUsesWith"@ && use_replace_all_applies(
                *t,
                code@,
                call as int,
                callee as int,
                arguments as int,
            )) || (callee_name@ != "replaceAllUsesWith"@ && use_replace_of_applies(
                *t,
                code@,
                call as int,
                callee as int,
                arguments as int,
            ))) ==> final(self).pending_edits() == old(self).pending_edits(),
            !spec_parent_is_expr_stmt(*t, call as int) ==> ({
                let ws = final(self).pending_warnings();
                &&& ws.len() == old(self).pending_warnings().len() + 1
                &&& ws.last().row == row
                &&& ws.last().kind == WarnKind::UnsupportedContext
                &&& ws.last().excerpt@ == node_source(*t, code@, call as int)
            }),
    {
        proof {
            assert(t.node_wf(t.nodes@[call as int], call as int));
        }
        if !self.parent_is_expr_stmt(t, call) {
            let excerpt = t.nodes[call].to_source(code);
            let ghost exv = excerpt;
            self.warn(row, WarnKind::UnsupportedContext, excerpt);
            proof {
                assert(exv@ == node_source(*t, code@, call as int));
                assert(self.pending_warnings() == old(self).pending_warnings().push(
                    (Warning { row, kind: WarnKind::UnsupportedContext, excerpt: exv }),
                ));
            }
            return ;
        }
        if str_eq(callee_name.as_str(), "replaceAllUsesWith") {
            let src = match child_by_field(t, callee, FieldTag::Argument) {
                Some(o) => o,
                None => {
                    return ;
                },
            };
            let dst = match child_at(t, arguments, 1) {
                Some(d) => d,
                None => {
                    return ;
                },
            };
            proof {
                assert(t.node_wf(t.nodes@[src as int], src as int));
                assert(t.node_wf(t.nodes@[dst as int], dst as int));
            }
            let arrow = match self.accessor_is_arrow(t, code, callee, row) {
                Some(b) => b,
                None => {
                    return ;
                },
            };
            let src_bytes = t.nodes[src].to_source(code);
            let src_str = match self.text_of(src_bytes, row) {
                Some(s) => s,
                None => {
                    return ;
                },
            };
            let dst_bytes = t.nodes[dst].to_source(code);
            let dst_str = match self.text_of(dst_bytes, row) {
                Some(s) => s,
                None => {
                    return ;
                },
            };
            let amp = if arrow {
                ""
            } else {
                "&"
            };
            let content = build_use_replace_all(amp, src_str.as_str(), dst_str.as_str(), row);
            let ghost c = content;
            let ghost ampv = amp@;
            self.add_replace_edit(content, t.nodes[call].start_byte, close_anchor(t, call));
            proof {
                assert(ampv == amp_of(*t, code@, callee as int));
                assert(src_str@ == wrap_target_text(*t, code@, callee as int));
                assert(dst_str@ == arg_text(*t, code@, arguments as int, 1));
                assert(c@ == tmpl_use_replace_all(
                    amp_of(*t, code@, callee as int),
                    wrap_target_text(*t, code@, callee as int),
                    arg_text(*t, code@, arguments as int, 1),
                    row as nat,
                ));
            }
        } else {
            let obj = match child_by_field(t, callee, FieldTag::Argument) {
                Some(o) => o,
                None => {
                    return ;
                },
            };
            let old_n = match child_at(t, arguments, 1) {
                Some(d) => d,
                None => {
                    return ;
                },
            };
            let new_n = match child_at(t, arguments, 3) {
                Some(d) => d,
                None => {
                    return ;
                },
            };
            proof {
                assert(t.node_wf(t.nodes@[obj as int], obj as int));
                assert(t.node_wf(t.nodes@[old_n as int], old_n as int));
                assert(t.node_wf(t.nodes@[new_n as int], new_n as int));
            }
            let arrow = match self.accessor_is_arrow(t, code, callee, row) {
                Some(b) => b,
                None => {
                    return ;
                },
            };
            let obj_bytes = t.nodes[obj].to_source(code);
            let obj_str = match self.text_of(obj_bytes, row) {
                Some(s) => s,
                None => {
                    return ;
                },
            };
            let old_bytes = t.nodes[old_n].to_source(code);
            let old_str = match self.text_of(old_bytes, row) {
                Some(s) => s,
                None => {
                    return ;
                },
            };
            let new_bytes = t.nodes[new_n].to_source(code);
            let new_str = match self.text_of(new_bytes, row) {
                Some(s) => s,
                None => {
                    return ;
                },
            };
            let op = if arrow {
                "->"
            } else {
                "."
            };
            let content = build_use_replace_of(
                obj_str.as_str(),
                op,
                old_str.as_str(),
                new_str.as_str(),
                row,
            );
            let ghost c = content;
            let ghost opv = op@;
            self.add_replace_edit(content, t.nodes[call].start_byte, close_anchor(t, call));
            proof {
                assert(opv == op_of(*t, code@, callee as int));
                assert(obj_str@ == wrap_target_text(*t, code@, callee as int));
                assert(old_str@ == arg_text(*t, code@, arguments as int, 1));
                assert(new_str@ == arg_text(*t, code@, arguments as int, 3));
                assert(c@ == tmpl_use_replace_of(
                    wrap_target_text(*t, code@, callee as int),
                    op_of(*t, code@, callee as int),
                    arg_text(*t, code@, arguments as int, 1),
                    arg_text(*t, code@, arguments as int, 3),
                    row as nat,
                ));
            }
        }
    }

    /// The law of construction sites of a creation type, one disjunct per
    /// handled context; every generated hook carries the construction's own
    /// row. A site in no handled context is reported and adds nothing.
    fn handle_new(&mut self, t: &SyntaxTree, code: &Vec<u8>, new_expr: usize)
        requires
            t.wf(),
            t.code_len == code@.len(),
            new_expr < t.nodes@.len(),
        ensures
            new_site_ok(
                *t,
                code@,
                new_expr as int,
                old(self).pending_edits(),
                final(self).pending_edits(),
            ),
            final(self).target_name() == old(self).target_name(),
            new_context_unsupported(*t, code@, new_expr as int) ==> ({
                let ws = final(self).pending_warnings();
                &&& ws.len() == old(self).pending_warnings().len() + 1
                &&& (ws.last().row as nat) == t.nodes@[new_expr as int].spec_row()
                &&& ws.last().kind == WarnKind::UnsupportedNewExpr
                &&& ws.last().excerpt@ == node_source(*t, code@, new_expr as int)
            }),
    {
        proof {
            assert(t.node_wf(t.nodes@[new_expr as int], new_expr as int));
        }
        let row = t.nodes[new_expr].row();
        let ty = match child_by_field(t, new_expr, FieldTag::Ty) {
            Some(n) => n,
            None => {
                return ;
            },
        };
        proof {
            assert(t.node_wf(t.nodes@[ty as int], ty as int));
        }
        let ty_bytes = t.nodes[ty].to_source(code);
        let ty_str = match self.text_of(ty_bytes, row) {
            Some(s) => s,
            None => {
                return ;
            },
        };
        match ty_str.get_fn_kind() {
            Some(FnKind::Create) => {},
            _ => {
                return ;
            },
        }
        if let Some(decl) = get_parent_of_kind(t, new_expr, NodeKind::Declaration) {
            self.instrument_create_decl(t, code, new_expr, decl, row, true);
            proof {
                if create_decl_applies(*t, code@, decl as int) {
                    let c = choose|c: String|
                        #![trigger c@]
                        (c@ == tmpl_create_decl(
                            create_decl_var_text(*t, code@, decl as int),
                            row as nat,
                        ) && self.pending_edits() == old(self).pending_edits().push(
                            (Edit {
                                content: c,
                                start_pos: t.nodes@[decl as int].end_byte,
                                kind: EditKind::Insert,
                            }),
                        ));
                    assert(c@ == tmpl_create_decl(
                        create_decl_var_text(*t, code@, decl as int),
                        t.nodes@[new_expr as int].spec_row(),
                    ));
                    assert(t.nodes@[decl as int].kind == NodeKind::Declaration);
                }
            }
            return ;
        }
        if let Some(assign) = get_parent_of_kind(t, new_expr, NodeKind::AssignmentExpression) {
            proof {
                assert(t.node_wf(t.nodes@[assign as int], assign as int));
            }
            let var = match get_var_name_from_assign(t, assign) {
                Some(v) => v,
                None => {
                    let excerpt = t.nodes[new_expr].to_source(code);
                    let ghost exv = excerpt;
                    self.warn(row, WarnKind::UnsupportedNewExpr, excerpt);
                    proof {
                        assert(exv@ == node_source(*t, code@, new_expr as int));
                        assert(self.pending_warnings().last() == (Warning {
                            row,
                            kind: WarnKind::UnsupportedNewExpr,
                            excerpt: exv,
                        }));
                    }
                    return ;
                },
            };
            proof {
                assert(t.node_wf(t.nodes@[var as int], var as int));
            }
            let var_bytes = t.nodes[var].to_source(code);
            let var_str = match self.text_of(var_bytes, row) {
                Some(s) => s,
                None => {
                    return ;
                },
            };
            let opener = String::from_str("{ ");
            let ghost c1 = opener;
            self.add_insert_edit(opener, t.nodes[assign].start_byte);
            let content = build_create_assign_close(var_str.as_str(), row);
            let ghost c2 = content;
            self.add_insert_edit(content, close_anchor(t, assign));
            proof {
                assert(c1@ == tmpl_open_scope());
                assert(var_str@ == assign_var_text(*t, code@, assign as int));
                assert(c2@ == tmpl_create_assign_close(
                    assign_var_text(*t, code@, assign as int),
                    t.nodes@[new_expr as int].spec_row(),
                ));
            }
            return ;
        }
        if let Some(ret) = get_parent_of_kind(t, new_expr, NodeKind::ReturnStatement) {
            proof {
                assert(t.node_wf(t.nodes@[ret as int], ret as int));
            }
            let src_bytes = t.nodes[new_expr].to_source(code);
            let src = match self.text_of(src_bytes, row) {
                Some(s) => s,
                None => {
                    return ;
                },
            };
            let content = build_create_return_new(src.as_str(), row);
            let ghost c = content;
            self.add_replace_edit(content, t.nodes[ret].start_byte, t.nodes[ret].end_byte);
            proof {
                assert(src@ == node_text(*t, code@, new_expr as int));
                assert(c@ == tmpl_create_return_new(
                    node_text(*t, code@, new_expr as int),
                    t.nodes@[new_expr as int].spec_row(),
                ));
            }
            return ;
        }
        let excerpt = t.nodes[new_expr].to_source(code);
        let ghost exv = excerpt;
        self.warn(row, WarnKind::UnsupportedNewExpr, excerpt);
        proof {
            assert(exv@ == node_source(*t, code@, new_expr as int));
            assert(self.pending_warnings().last() == (Warning {
                row,
                kind: WarnKind::UnsupportedNewExpr,
                excerpt: exv,
            }));
        }
    }

    /// Walks every function definition: the pass entry point gets the
    /// start/finish bracketing, ordinary functions get their call and
    /// construction sites visited.
    fn visit_fn_defs(&mut self, t: &SyntaxTree, code: &Vec<u8>, fn_defs: &Vec<usize>) -> (r:
        Result<(), InstError>)
        requires
            t.wf(),
            t.code_len == code@.len(),
            forall|c: int| 0 <= c < fn_defs@.len() ==> (#[trigger] fn_defs@[c]) < t.nodes@.len(),
        ensures
            edits_extend(old(self).pending_edits(), final(self).pending_edits()),
            final(self).target_name() == old(self).target_name(),
            r is Err ==> r == Err::<(), InstError>(InstError::MissingParamList),
            r is Ok ==> exists|chk: Seq<(Seq<Edit>, Seq<Warning>)>|
                #![trigger chk.len()]
                ({
                    &&& chk.len() == fn_defs@.len() + 1
                    &&& chk[0] == (old(self).pending_edits(), old(self).pending_warnings())
                    &&& chk[fn_defs@.len() as int] == (
                        final(self).pending_edits(),
                        final(self).pending_warnings(),
                    )
                    &&& forall|m: int|
                        0 <= m < fn_defs@.len() ==> fn_def_step_ok(
                            *t,
                            code@,
                            old(self).target_name(),
                            (#[trigger] fn_defs@[m]) as int,
                            chk[m].0,
                            chk[m + 1].0,
                            chk[m].1,
                            chk[m + 1].1,
                        )
                }),
    {
        let ghost pre = self.pending_edits();
        let ghost mut chk: Seq<(Seq<Edit>, Seq<Warning>)> = seq![
            (self.pending_edits(), self.pending_warnings()),
        ];
        let mut i: usize = 0;
        while i < fn_defs.len()
            invariant
                t.wf(),
                t.code_len == code@.len(),
                forall|c: int|
                    0 <= c < fn_defs@.len() ==> (#[trigger] fn_defs@[c]) < t.nodes@.len(),
                i <= fn_defs@.len(),
                pre == old(self).pending_edits(),
                self.target_name() == old(self).target_name(),
                edits_extend(pre, self.pending_edits()),
                chk.len() == i + 1,
                chk[0] == (old(self).pending_edits(), old(self).pending_warnings()),
                chk[i as int] == (self.pending_edits(), self.pending_warnings()),
                forall|m: int|
                    0 <= m < i ==> fn_def_step_ok(
                        *t,
                        code@,
                        old(self).target_name(),
                        (#[trigger] fn_defs@[m]) as int,
                        chk[m].0,
                        chk[m + 1].0,
                        chk[m].1,
                        chk[m + 1].1,
                    ),
            decreases fn_defs@.len() - i,
        {
            let fn_def = fn_defs[i];
            proof {
                assert(t.node_wf(t.nodes@[fn_def as int], fn_def as int));
            }
            let declarators = get_children_of_kind(t, fn_def, NodeKind::FunctionDeclarator);
            proof {
                crate::visit::lemma_collected_head(
                    *t,
                    fn_def as int,
                    NodeKind::FunctionDeclarator,
                    declarators@,
                );
            }
            if declarators.len() == 0 {
                let row = t.nodes[fn_def].row();
                let excerpt = t.nodes[fn_def].to_source(code);
                let ghost exv = excerpt;
                self.warn(row, WarnKind::NoDeclarator, excerpt);
                proof {
                    assert(no_declarator(*t, fn_def as int));
                    assert(exv@ == node_source(*t, code@, fn_def as int));
                    assert(self.pending_warnings().last() == (Warning {
                        row,
                        kind: WarnKind::NoDeclarator,
                        excerpt: exv,
                    }));
                    let stepped = (self.pending_edits(), self.pending_warnings());
                    assert(fn_def_step_ok(
                        *t,
                        code@,
                        old(self).target_name(),
                        fn_def as int,
                        chk[i as int].0,
                        stepped.0,
                        chk[i as int].1,
                        stepped.1,
                    ));
                    chk = chk.push(stepped);
                }
                i = i + 1;
            } else {
                proof {
                    assert(!no_declarator(*t, fn_def as int));
                }
                let row = t.nodes[fn_def].row();
                let ident = get_fn_identifier(t, fn_def);
                let mut is_entry = false;
                match ident {
                    Some(id) => {
                        proof {
                            assert(t.node_wf(t.nodes@[id as int], id as int));
                        }
                        let id_bytes = t.nodes[id].to_source(code);
                        match self.text_of(id_bytes, row) {
                            Some(nm) => {
                                is_entry = nm.is_pass_entry();
                                proof {
                                    assert(nm@ == node_text(*t, code@, id as int));
                                    assert(is_entry == is_entry_def(*t, code@, fn_def as int));
                                }
                            },
                            None => {
                                proof {
                                    assert(!is_entry_def(*t, code@, fn_def as int));
                                }
                            },
                        }
                    },
                    None => {
                        proof {
                            assert(!is_entry_def(*t, code@, fn_def as int));
                        }
                    },
                }
                proof {
                    assert(is_entry == is_entry_def(*t, code@, fn_def as int));
                }
                if is_entry {
                    let ghost before = self.pending_edits();
                    let res = self.collect_init_and_clean_up_edit(t, code, fn_def);
                    proof {
                        assert(edits_extend(before, self.pending_edits()));
                        assert(edits_extend(pre, self.pending_edits()));
                    }
                    if let Err(e) = res {
                        return Err(e);
                    }
                    proof {
                        assert(entry_edits_ok(
                            *t,
                            code@,
                            old(self).target_name(),
                            fn_def as int,
                            before,
                            self.pending_edits(),
                        ));
                        let stepped = (self.pending_edits(), self.pending_warnings());
                        assert(fn_def_step_ok(
                            *t,
                            code@,
                            old(self).target_name(),
                            fn_def as int,
                            chk[i as int].0,
                            stepped.0,
                            chk[i as int].1,
                            stepped.1,
                        ));
                        chk = chk.push(stepped);
                    }
                } else {
                    let ghost branch_pre = self.pending_edits();
                    let calls = get_children_of_kind(t, fn_def, NodeKind::CallExpression);
                    let ghost mut chkc: Seq<Seq<Edit>> = seq![self.pending_edits()];
                    let mut j: usize = 0;
                    while j < calls.len()
                        invariant
                            t.wf(),
                            t.code_len == code@.len(),
                            forall|c: int|
                                0 <= c < calls@.len() ==> (#[trigger] calls@[c]) < t.nodes@.len(),
                            j <= calls@.len(),
                            self.target_name() == old(self).target_name(),
                            edits_extend(pre, self.pending_edits()),
                            chkc.len() == j + 1,
                            chkc[0] == branch_pre,
                            chkc[j as int] == self.pending_edits(),
                            forall|m: int|
                                0 <= m < j ==> call_site_ok(
                                    *t,
                                    code@,
                                    (#[trigger] calls@[m]) as int,
                                    chkc[m],
                                    chkc[m + 1],
                                ),
                        decreases calls@.len() - j,
                    {
                        let ghost b = self.pending_edits();
                        self.handle_call(t, code, calls[j]);
                        proof {
                            assert(edits_extend(b, self.pending_edits()));
                            assert(edits_extend(pre, self.pending_edits()));
                            chkc = chkc.push(self.pending_edits());
                        }
                        j = j + 1;
                    }
                    let news = get_children_of_kind(t, fn_def, NodeKind::NewExpression);
                    let ghost mut chkn: Seq<Seq<Edit>> = seq![self.pending_edits()];
                    let mut j2: usize = 0;
                    while j2 < news.len()
                        invariant
                            t.wf(),
                            t.code_len == code@.len(),
                            forall|c: int|
                                0 <= c < news@.len() ==> (#[trigger] news@[c]) < t.nodes@.len(),
                            j2 <= news@.len(),
                            self.target_name() == old(self).target_name(),
                            edits_extend(pre, self.pending_edits()),
                            chkn.len() == j2 + 1,
                            chkn[0] == chkc[calls@.len() as int],
                            chkn[j2 as int] == self.pending_edits(),
                            forall|m: int|
                                0 <= m < j2 ==> new_site_ok(
                                    *t,
                                    code@,
                                    (#[trigger] news@[m]) as int,
                                    chkn[m],
                                    chkn[m + 1],
                                ),
                        decreases news@.len() - j2,
                    {
                        let ghost b = self.pending_edits();
                        self.handle_new(t, code, news[j2]);
                        proof {
                            assert(edits_extend(b, self.pending_edits()));
                            assert(edits_extend(pre, self.pending_edits()));
                            chkn = chkn.push(self.pending_edits());
                        }
                        j2 = j2 + 1;
                    }
                    proof {
                        assert(kind_list_of(
                            *t,
                            fn_def as int,
                            NodeKind::CallExpression,
                            calls@,
                        ));
                        assert(kind_list_of(*t, fn_def as int, NodeKind::NewExpression, news@));
                        assert(chkn[0] == chkc[calls@.len() as int]);
                        assert(chkn[news@.len() as int] == self.pending_edits());
                        assert(ordinary_edits_ok(
                            *t,
                            code@,
                            fn_def as int,
                            branch_pre,
                            self.pending_edits(),
                        ));
                        let stepped = (self.pending_edits(), self.pending_warnings());
                        assert(fn_def_step_ok(
                            *t,
                            code@,
                            old(self).target_name(),
                            fn_def as int,
                            chk[i as int].0,
                            stepped.0,
                            chk[i as int].1,
                            stepped.1,
                        ));
                        chk = chk.push(stepped);
                    }
                }
                i = i + 1;
            }
        }
        proof {
            assert(chk.len() == fn_defs@.len() + 1);
        }
        Ok(())
    }

    /// Collects every edit for one parsed buffer. The file is rejected
    /// exactly when it has no include directive; otherwise the first edit
    /// recorded is the monitor-header insertion.
    fn collect_edits(&mut self, t: &SyntaxTree, code: &Vec<u8>) -> (r: Result<(), InstError>)
        requires
            t.wf(),
            t.code_len == code@.len(),
        ensures
            (r == Err::<(), InstError>(InstError::NoHeaderInclude)) <==> !(exists|j: int|
                0 <= j < t.nodes@.len() && in_subtree(*t, 0, j) && (#[trigger] t.nodes@[j]).kind
                    == NodeKind::PreprocInclude),
            r == Err::<(), InstError>(InstError::NoHeaderInclude) ==> final(self).pending_edits()
                == old(self).pending_edits(),
            !(r == Err::<(), InstError>(InstError::NoHeaderInclude)) ==> (final(self).pending_edits().len() > old(self).pending_edits().len() && exists|c: String, p: usize|
                #![trigger c@, header_insert_at(*t, p)]
                (c@ == HEADER_INCLUDE@ && header_insert_at(*t, p)
                    && final(self).pending_edits()[old(self).pending_edits().len() as int] == (
                Edit { content: c, start_pos: p, kind: EditKind::Insert }))),
            final(self).target_name() == old(self).target_name(),
            r is Err ==> (r == Err::<(), InstError>(InstError::NoHeaderInclude) || r == Err::<
                (),
                InstError,
            >(InstError::MissingParamList)),
            r is Ok ==> collected_ok(
                *t,
                code@,
                old(self).target_name(),
                old(self).pending_edits(),
                old(self).pending_warnings(),
                final(self).pending_edits(),
                final(self).pending_warnings(),
            ),
    {
        let includes = get_children_of_kind(t, 0, NodeKind::PreprocInclude);
        if includes.len() == 0 {
            proof {
                assert forall|j: int|
                    0 <= j < t.nodes@.len() implies !(in_subtree(*t, 0, j) && (
                #[trigger] t.nodes@[j]).kind == NodeKind::PreprocInclude) by {
                    assert(!includes@.contains(j as usize));
                }
            }
            return Err(InstError::NoHeaderInclude);
        }
        proof {
            let j0 = includes@[0] as int;
            assert(includes@[0] < t.nodes@.len());
            assert(includes@.contains(j0 as usize)) by {
                assert(includes@[0] == j0 as usize);
            }
            assert(in_subtree(*t, 0, j0) && t.nodes@[j0].kind == NodeKind::PreprocInclude);
        }
        self.visit_header_includes(t, &includes);
        proof {
            assert(self.pending_warnings() == old(self).pending_warnings());
        }
        let ghost after_header = self.pending_edits();
        let fn_defs = get_children_of_kind(t, 0, NodeKind::FunctionDefinition);
        let ghost mid_pair = (self.pending_edits(), self.pending_warnings());
        let r = self.visit_fn_defs(t, code, &fn_defs);
        proof {
            if r is Ok {
                let (hc, hp) = choose|hc: String, hp: usize|
                    #![trigger hc@, header_insert_at(*t, hp)]
                    (hc@ == HEADER_INCLUDE@ && header_insert_at(*t, hp) && after_header == old(
                        self,
                    ).pending_edits().push(
                        (Edit { content: hc, start_pos: hp, kind: EditKind::Insert }),
                    ));
                let chk = choose|chk: Seq<(Seq<Edit>, Seq<Warning>)>|
                    #![trigger chk.len()]
                    ({
                        &&& chk.len() == fn_defs@.len() + 1
                        &&& chk[0] == mid_pair
                        &&& chk[fn_defs@.len() as int] == (
                            self.pending_edits(),
                            self.pending_warnings(),
                        )
                        &&& forall|m: int|
                            0 <= m < fn_defs@.len() ==> fn_def_step_ok(
                                *t,
                                code@,
                                old(self).target_name(),
                                (#[trigger] fn_defs@[m]) as int,
                                chk[m].0,
                                chk[m + 1].0,
                                chk[m].1,
                                chk[m + 1].1,
                            )
                    });
                assert(kind_list_of(*t, 0, NodeKind::FunctionDefinition, fn_defs@));
                assert(collected_ok(
                    *t,
                    code@,
                    old(self).target_name(),
                    old(self).pending_edits(),
                    old(self).pending_warnings(),
                    self.pending_edits(),
                    self.pending_warnings(),
                ));
            }
        }
        r
    }

    /// Instruments one buffer: parse, collect, deduplicate, order, check
    /// for overlap, and apply. On success the output is exactly the batch
    /// application of a non-overlapping, descending edit sequence to the
    /// original bytes.
    pub fn instrument(&mut self, filename: &str, code: &str) -> (r: Result<
        InstrumentOutput,
        InstError,
    >)
        ensures
            final(self).pending_edits().len() == 0,
            final(self).pending_warnings().len() == 0,
            final(self).target_name().len() == 0,
            (r == Err::<InstrumentOutput, InstError>(InstError::ParseFailure)) <==> (
            code.spec_bytes().len() == usize::MAX || !ts::cpp_parse_succeeds(code.spec_bytes())),
            r matches Ok(out) ==> exists|es: Seq<Edit>|
                edits_applicable(es, code.spec_bytes().len() as int) && sorted_desc(es)
                    && out.code@ == crate::edit::spec_apply(code.spec_bytes(), es) && exists|
                    k: int,
                |
                    0 <= k < es.len() && (#[trigger] es[k]).content@ == HEADER_INCLUDE@
                        && es[k].kind is Insert,
            r matches Ok(out) ==> exists|
                t: SyntaxTree,
                es0: Seq<Edit>,
                ws0: Seq<Warning>,
                es: Seq<Edit>,
            |
                #![trigger collected_ok(
                    t,
                    code.spec_bytes(),
                    filename@,
                    Seq::empty(),
                    Seq::empty(),
                    es0,
                    ws0,
                ), es.to_multiset()]
                ({
                    &&& t.wf()
                    &&& t.code_len == code.spec_bytes().len()
                    &&& ts::cpp_parse_succeeds(code.spec_bytes())
                    &&& collected_ok(
                        t,
                        code.spec_bytes(),
                        filename@,
                        Seq::empty(),
                        Seq::empty(),
                        es0,
                        ws0,
                    )
                    &&& es.to_multiset() == crate::edit::spec_dedup(es0, Set::empty()).to_multiset()
                    &&& sorted_desc(es)
                    &&& edits_applicable(es, code.spec_bytes().len() as int)
                    &&& out.code@ == crate::edit::spec_apply(code.spec_bytes(), es)
                }),
    {
        self.reset();
        self.target_file = String::from_str(filename);
        let bytes = code.as_bytes_vec();
        let t = match parse_source(&bytes) {
            Some(t) => t,
            None => {
                self.reset();
                return Err(InstError::ParseFailure);
            },
        };
        let ghost tg = t;
        proof {
            assert(self.pending_edits() =~= Seq::<Edit>::empty());
            assert(self.pending_warnings() =~= Seq::<Warning>::empty());
            assert(self.target_name() == filename@);
        }
        if let Err(e) = self.collect_edits(&t, &bytes) {
            self.reset();
            return Err(e);
        }
        let ghost es0 = self.pending_edits();
        let ghost ws0 = self.pending_warnings();
        proof {
            assert(collected_ok(tg, bytes@, filename@, Seq::empty(), Seq::empty(), es0, ws0));
        }
        let mut collected = Vec::new();
        core::mem::swap(&mut collected, &mut self.edits);
        proof {
            assert(collected@.len() > 0);
            assert(collected@[0].content@ == HEADER_INCLUDE@ && collected@[0].kind is Insert);
        }
        let deduped = dedup_edits(collected);
        proof {
            assert(deduped@[0] == collected@[0]);
        }
        let sorted = sort_edits(deduped);
        proof {
            broadcast use vstd::seq_lib::group_to_multiset_ensures;

            assert(deduped@.contains(deduped@[0]));
            assert(deduped@.to_multiset().count(deduped@[0]) > 0);
            assert(sorted@.to_multiset().count(deduped@[0]) > 0);
            assert(sorted@.contains(deduped@[0]));
            let k = choose|k: int| 0 <= k < sorted@.len() && sorted@[k] == deduped@[0];
            assert(sorted@[k].content@ == HEADER_INCLUDE@ && sorted@[k].kind is Insert);
        }
        if !check_applicable(&sorted, bytes.len()) {
            self.reset();
            return Err(InstError::OverlappingEdits);
        }
        let out_bytes = apply_edits(&bytes, &sorted);
        let mut warnings = Vec::new();
        core::mem::swap(&mut warnings, &mut self.warnings);
        self.reset();
        proof {
            assert(edits_applicable(sorted@, code.spec_bytes().len() as int));
            assert(collected@ == es0);
            assert(sorted@.to_multiset() == crate::edit::spec_dedup(
                es0,
                Set::empty(),
            ).to_multiset());
            assert(tg.wf() && tg.code_len == code.spec_bytes().len());
            assert(ts::cpp_parse_succeeds(code.spec_bytes()));
            assert(collected_ok(
                tg,
                code.spec_bytes(),
                filename@,
                Seq::empty(),
                Seq::empty(),
                es0,
                ws0,
            ));
            assert(out_bytes@ == crate::edit::spec_apply(code.spec_bytes(), sorted@));
        }
        Ok(InstrumentOutput { code: out_bytes, warnings })
    }

    /// Parses a buffer and reports whether it is syntactically well-formed
    /// under the same grammar used for instrumentation: the grammar yields
    /// a tree and its root subtree carries no error.
    pub fn parses_cleanly(code: &str) -> (r: bool)
        ensures
            r == (ts::cpp_parse_succeeds(code.spec_bytes()) && ts::cpp_error_free(
                code.spec_bytes(),
            )),
    {
        let bytes = code.as_bytes_vec();
        match ts::parse_cpp_error_free(&bytes) {
            Some(b) => b,
            None => false,
        }
    }
}

} // verus!

//! The crate's own model of a concrete syntax tree: a flat vector of nodes
//! with a closed kind taxonomy, byte offsets into the original buffer,
//! 0-based rows, parent links and child index lists. Text extraction works on
//! the byte buffer the tree was parsed from, so no tree query is needed once
//! the tree is built.

use vstd::prelude::*;

verus! {

/// The grammar productions the instrumenter inspects; everything else is
/// `Other`.
#[derive(PartialEq, Eq, Structural, Clone, Copy, Debug)]
pub enum NodeKind {
    PreprocInclude,
    UsingDecl,
    FunctionDefinition,
    FunctionDeclarator,
    CallExpression,
    NewExpression,
    FieldExpression,
    QualifiedIdentifier,
    Declaration,
    AssignmentExpression,
    ReturnStatement,
    ExpressionStatement,
    ParameterDeclaration,
    Other,
}

/// The grammar field under which a node hangs off its parent, for the
/// fields the instrumenter navigates by; `NoField` for unnamed children and
/// `OtherField` for named ones outside this set.
#[derive(PartialEq, Eq, Structural, Clone, Copy, Debug)]
pub enum FieldTag {
    NoField,
    Function,
    Arguments,
    Declarator,
    Parameters,
    Ty,
    Body,
    Argument,
    FieldName,
    Left,
    OtherField,
}

/// One node of the flattened tree.
pub struct NodeData {
    pub kind: NodeKind,
    pub field: FieldTag,
    pub start_byte: usize,
    pub end_byte: usize,
    pub row0: usize,
    pub parent: usize,
    pub children: Vec<usize>,
}

/// A flattened syntax tree over a buffer of `code_len` bytes. Node 0 is the
/// root; children always carry larger indices than their parent.
pub struct SyntaxTree {
    pub nodes: Vec<NodeData>,
    pub code_len: usize,
}

impl SyntaxTree {
    /// Structural well-formedness of one node at index `i`.
    pub open spec fn node_wf(&self, n: NodeData, i: int) -> bool {
        &&& n.start_byte <= n.end_byte <= self.code_len
        &&& n.row0 <= self.code_len
        &&& if i == 0 {
            n.parent == 0
        } else {
            (n.parent as int) < i
        }
        &&& forall|j: int|
            0 <= j < n.children@.len() ==> (i < (#[trigger] n.children@[j]) as int && (
            n.children@[j] as int) < self.nodes@.len())
    }

    /// Structural well-formedness of the whole tree: offsets lie within the
    /// buffer, rows are bounded, parents precede their nodes and children
    /// follow them.
    pub open spec fn wf(&self) -> bool {
        &&& 1 <= self.nodes@.len()
        &&& self.code_len < usize::MAX
        &&& forall|i: int| 0 <= i < self.nodes@.len() ==> self.node_wf(#[trigger] self.nodes@[i], i)
    }
}

/// A byte that the normalization trims at a segment boundary. Only the
/// ASCII blanks are trimmed: multi-byte (non-ASCII) whitespace is kept,
/// since the buffer is handled byte-wise.
pub open spec fn is_blank(b: u8) -> bool {
    b == 32 || b == 9 || b == 11 || b == 12 || b == 13
}

/// `s` without its leading blanks.
pub open spec fn trim_front(s: Seq<u8>) -> Seq<u8>
    decreases s.len(),
{
    if s.len() > 0 && is_blank(s[0]) {
        trim_front(s.drop_first())
    } else {
        s
    }
}

/// `s` without its trailing blanks.
pub open spec fn trim_back(s: Seq<u8>) -> Seq<u8>
    decreases s.len(),
{
    if s.len() > 0 && is_blank(s.last()) {
        trim_back(s.drop_last())
    } else {
        s
    }
}

/// `s` without leading and trailing blanks.
pub open spec fn trim_blanks(s: Seq<u8>) -> Seq<u8> {
    trim_back(trim_front(s))
}

/// Index of the first newline in `s`, or -1 if there is none.
pub open spec fn first_nl(s: Seq<u8>) -> int
    decreases s.len(),
{
    if s.len() == 0 {
        -1
    } else if s[0] == 10 {
        0
    } else if first_nl(s.drop_first()) < 0 {
        -1
    } else {
        first_nl(s.drop_first()) + 1
    }
}

/// What `first_nl` finds: -1 exactly when no newline occurs, otherwise the
/// position of the first one.
pub proof fn lemma_first_nl_char(s: Seq<u8>)
    ensures
        first_nl(s) == -1 ==> forall|k: int| 0 <= k < s.len() ==> s[k] != 10,
        first_nl(s) >= 0 ==> 0 <= first_nl(s) < s.len() && s[first_nl(s)] == 10 && forall|k: int|
            0 <= k < first_nl(s) ==> s[k] != 10,
    decreases s.len(),
{
    if s.len() == 0 {
    } else if s[0] == 10 {
    } else {
        lemma_first_nl_char(s.drop_first());
        let t = s.drop_first();
        if first_nl(t) == -1 {
            assert forall|k: int| 0 <= k < s.len() implies s[k] != 10 by {
                if k > 0 {
                    assert(t[k - 1] != 10);
                }
            }
        } else {
            assert forall|k: int| 0 <= k < first_nl(s) implies s[k] != 10 by {
                if k > 0 {
                    assert(t[k - 1] != 10);
                }
            }
        }
    }
}

/// A position holding a newline with none before it is what `first_nl`
/// returns.
pub proof fn lemma_first_nl_at(s: Seq<u8>, d: int)
    requires
        0 <= d < s.len(),
        s[d] == 10,
        forall|k: int| 0 <= k < d ==> s[k] != 10,
    ensures
        first_nl(s) == d,
    decreases d,
{
    if d == 0 {
    } else {
        let t = s.drop_first();
        assert forall|k: int| 0 <= k < d - 1 implies t[k] != 10 by {
            assert(t[k] == s[k + 1]);
        }
        lemma_first_nl_at(t, d - 1);
    }
}

/// The whitespace normalization applied to extracted source text: each
/// newline-separated segment is trimmed of ASCII blanks and the segments
/// are joined by single spaces.
pub open spec fn normalize(s: Seq<u8>) -> Seq<u8>
    decreases s.len(),
    via normalize_dec
{
    if first_nl(s) < 0 {
        trim_blanks(s)
    } else {
        trim_blanks(s.subrange(0, first_nl(s))) + seq![32u8] + normalize(
            s.subrange(first_nl(s) + 1, s.len() as int),
        )
    }
}

#[via_fn]
proof fn normalize_dec(s: Seq<u8>) {
    lemma_first_nl_char(s);
}

fn is_blank_u8(b: u8) -> (r: bool)
    ensures
        r == is_blank(b),
{
    b == 32 || b == 9 || b == 11 || b == 12 || b == 13
}

/// Copies `v[from..to]` into a fresh vector.
pub fn vec_slice(v: &Vec<u8>, from: usize, to: usize) -> (r: Vec<u8>)
    requires
        from <= to <= v@.len(),
    ensures
        r@ == v@.subrange(from as int, to as int),
{
    let mut r: Vec<u8> = Vec::new();
    let mut i: usize = from;
    while i < to
        invariant
            from <= i <= to <= v@.len(),
            r@ == v@.subrange(from as int, i as int),
        decreases to - i,
    {
        r.push(v[i]);
        proof {
            assert(r@ =~= v@.subrange(from as int, i as int + 1));
        }
        i = i + 1;
    }
    r
}

fn vec_extend(out: &mut Vec<u8>, src: &Vec<u8>)
    ensures
        final(out)@ == old(out)@ + src@,
{
    let mut i: usize = 0;
    while i < src.len()
        invariant
            i <= src@.len(),
            out@ == old(out)@ + src@.subrange(0, i as int),
        decreases src@.len() - i,
    {
        out.push(src[i]);
        proof {
            assert(out@ =~= old(out)@ + src@.subrange(0, i as int + 1));
        }
        i = i + 1;
    }
    proof {
        assert(src@.subrange(0, src@.len() as int) =~= src@);
    }
}

/// Trims blanks from both ends of `v[from..to]`.
fn trim_vec(v: &Vec<u8>, from: usize, to: usize) -> (r: Vec<u8>)
    requires
        from <= to <= v@.len(),
    ensures
        r@ == trim_blanks(v@.subrange(from as int, to as int)),
{
    let mut a = from;
    while a < to && is_blank_u8(v[a])
        invariant
            from <= a <= to <= v@.len(),
            trim_front(v@.subrange(from as int, to as int)) == trim_front(
                v@.subrange(a as int, to as int),
            ),
        decreases to - a,
    {
        proof {
            assert(v@.subrange(a as int, to as int).drop_first() =~= v@.subrange(
                a as int + 1,
                to as int,
            ));
        }
        a = a + 1;
    }
    proof {
        assert(trim_front(v@.subrange(a as int, to as int)) == v@.subrange(a as int, to as int));
    }
    let mut b = to;
    while b > a && is_blank_u8(v[b - 1])
        invariant
            from <= a <= b <= to <= v@.len(),
            trim_back(v@.subrange(a as int, to as int)) == trim_back(
                v@.subrange(a as int, b as int),
            ),
        decreases b - a,
    {
        proof {
            assert(v@.subrange(a as int, b as int).drop_last() =~= v@.subrange(
                a as int,
                b as int - 1,
            ));
        }
        b = b - 1;
    }
    proof {
        assert(trim_back(v@.subrange(a as int, b as int)) == v@.subrange(a as int, b as int));
    }
    vec_slice(v, a, b)
}

/// Extracts and normalizes the text of `code[from..to]`.
pub fn to_source_range(code: &Vec<u8>, from: usize, to: usize) -> (r: Vec<u8>)
    requires
        from <= to <= code@.len(),
    ensures
        r@ == normalize(code@.subrange(from as int, to as int)),
    decreases to - from,
{
    let ghost s = code@.subrange(from as int, to as int);
    let mut i = from;
    while i < to && code[i] != 10
        invariant
            from <= i <= to <= code@.len(),
            forall|k: int| from <= k < i ==> code@[k] != 10,
        decreases to - i,
    {
        i = i + 1;
    }
    if i == to {
        proof {
            lemma_first_nl_char(s);
            if first_nl(s) >= 0 {
                assert(s[first_nl(s)] == 10);
                assert(s[first_nl(s)] == code@[from + first_nl(s)]);
                assert(false);
            }
        }
        trim_vec(code, from, to)
    } else {
        proof {
            assert(s[i - from] == 10);
            assert forall|k: int| 0 <= k < i - from implies s[k] != 10 by {
                assert(s[k] == code@[from + k]);
            }
            lemma_first_nl_at(s, i - from);
        }
        let mut head = trim_vec(code, from, i);
        head.push(32u8);
        let rest = to_source_range(code, i + 1, to);
        vec_extend(&mut head, &rest);
        proof {
            assert(s.subrange(0, first_nl(s)) =~= code@.subrange(from as int, i as int));
            assert(s.subrange(first_nl(s) + 1, s.len() as int) =~= code@.subrange(
                i as int + 1,
                to as int,
            ));
            assert(head@ =~= normalize(s));
        }
        head
    }
}

/// View of a node shared by the visitor: position, raw and normalized text,
/// and the kind tests the walker needs.
pub trait AstNode {
    /// The 1-based row carried into generated hook calls.
    spec fn spec_row(&self) -> nat;

    /// The exec row computation cannot overflow.
    spec fn row_ok(&self) -> bool;

    /// The node's byte range lies within a buffer of length `len`.
    spec fn range_ok(&self, len: int) -> bool;

    /// Start of the node's byte range.
    spec fn spec_start(&self) -> int;

    /// Exclusive end of the node's byte range.
    spec fn spec_end(&self) -> int;

    /// The node is a header include directive.
    spec fn spec_is_header_include(&self) -> bool;

    /// The node is a using declaration.
    spec fn spec_is_using_decl(&self) -> bool;

    /// The node is a function definition.
    spec fn spec_is_fn_def(&self) -> bool;

    /// 1-based row of the node's start position.
    fn row(&self) -> (r: usize)
        requires
            self.row_ok(),
        ensures
            r as nat == self.spec_row(),
    ;

    /// The node's text, byte for byte.
    fn to_raw(&self, code: &Vec<u8>) -> (r: Vec<u8>)
        requires
            self.range_ok(code@.len() as int),
        ensures
            r@ == code@.subrange(self.spec_start(), self.spec_end()),
    ;

    /// The node's text with each line trimmed and lines joined by spaces.
    fn to_source(&self, code: &Vec<u8>) -> (r: Vec<u8>)
        requires
            self.range_ok(code@.len() as int),
        ensures
            r@ == normalize(code@.subrange(self.spec_start(), self.spec_end())),
    ;

    /// Whether the node is a header include directive.
    fn is_header_include(&self) -> (r: bool)
        ensures
            r == self.spec_is_header_include(),
    ;

    /// Whether the node is a using declaration.
    fn is_using_decl(&self) -> (r: bool)
        ensures
            r == self.spec_is_using_decl(),
    ;

    /// Whether the node is a function definition.
    fn is_fn_def(&self) -> (r: bool)
        ensures
            r == self.spec_is_fn_def(),
    ;
}

impl AstNode for NodeData {
    open spec fn spec_row(&self) -> nat {
        (self.row0 + 1) as nat
    }

    open spec fn row_ok(&self) -> bool {
        self.row0 < usize::MAX
    }

    open spec fn range_ok(&self, len: int) -> bool {
        self.start_byte <= self.end_byte <= len
    }

    open spec fn spec_start(&self) -> int {
        self.start_byte as int
    }

    open spec fn spec_end(&self) -> int {
        self.end_byte as int
    }

    open spec fn spec_is_header_include(&self) -> bool {
        self.kind == NodeKind::PreprocInclude
    }

    open spec fn spec_is_using_decl(&self) -> bool {
        self.kind == NodeKind::UsingDecl
    }

    open spec fn spec_is_fn_def(&self) -> bool {
        self.kind == NodeKind::FunctionDefinition
    }

    fn row(&self) -> (r: usize) {
        self.row0 + 1
    }

    fn to_raw(&self, code: &Vec<u8>) -> (r: Vec<u8>) {
        vec_slice(code, self.start_byte, self.end_byte)
    }

    fn to_source(&self, code: &Vec<u8>) -> (r: Vec<u8>) {
        to_source_range(code, self.start_byte, self.end_byte)
    }

    fn is_header_include(&self) -> (r: bool) {
        self.kind == NodeKind::PreprocInclude
    }

    fn is_using_decl(&self) -> (r: bool) {
        self.kind == NodeKind::UsingDecl
    }

    fn is_fn_def(&self) -> (r: bool) {
        self.kind == NodeKind::FunctionDefinition
    }
}

} // verus!

//! Verified navigation over the flattened syntax tree: subtree membership,
//! kind-filtered descendant collection, field-directed child lookup and
//! ancestor search.

use vstd::prelude::*;

use crate::ast::{FieldTag, NodeKind, SyntaxTree};

verus! {

/// Node `j` lies in the subtree rooted at `root` (including `root` itself),
/// following parent links.
pub open spec fn in_subtree(t: SyntaxTree, root: int, j: int) -> bool
    decreases j,
{
    if j == root {
        true
    } else if 0 < j < t.nodes@.len() && (t.nodes@[j].parent as int) < j {
        in_subtree(t, root, t.nodes@[j].parent as int)
    } else {
        false
    }
}

/// Some proper ancestor of `j` has kind `k`.
pub open spec fn has_ancestor_of_kind(t: SyntaxTree, j: int, k: NodeKind) -> bool
    decreases j,
{
    if 0 < j < t.nodes@.len() && (t.nodes@[j].parent as int) < j {
        let p = t.nodes@[j].parent as int;
        t.nodes@[p].kind == k || has_ancestor_of_kind(t, p, k)
    } else {
        false
    }
}

/// Whether `j` lies in the subtree rooted at `root`.
pub fn is_in_subtree(t: &SyntaxTree, root: usize, j: usize) -> (r: bool)
    requires
        t.wf(),
        root < t.nodes@.len(),
        j < t.nodes@.len(),
    ensures
        r == in_subtree(*t, root as int, j as int),
{
    let mut cur = j;
    while cur != root && cur != 0
        invariant
            t.wf(),
            cur < t.nodes@.len(),
            in_subtree(*t, root as int, j as int) == in_subtree(*t, root as int, cur as int),
        decreases cur,
    {
        cur = t.nodes[cur].parent;
    }
    if cur == root {
        true
    } else {
        false
    }
}

/// All nodes of kind `k` in the subtree rooted at `root`, in ascending node
/// order: exactly the subtree members of that kind, each listed once.
pub fn get_children_of_kind(t: &SyntaxTree, root: usize, k: NodeKind) -> (r: Vec<usize>)
    requires
        t.wf(),
        root < t.nodes@.len(),
    ensures
        forall|c: int| 0 <= c < r@.len() ==> (#[trigger] r@[c]) < t.nodes@.len(),
        forall|c: int, d: int| 0 <= c < d < r@.len() ==> r@[c] < r@[d],
        forall|j: int|
            0 <= j < t.nodes@.len() ==> ((#[trigger] r@.contains(j as usize)) <==> (in_subtree(
                *t,
                root as int,
                j,
            ) && t.nodes@[j].kind == k)),
{
    let mut r: Vec<usize> = Vec::new();
    let n = t.nodes.len();
    let mut j: usize = 0;
    while j < n
        invariant
            t.wf(),
            root < t.nodes@.len(),
            n == t.nodes@.len(),
            j <= n,
            forall|c: int| 0 <= c < r@.len() ==> (#[trigger] r@[c]) < j,
            forall|c: int, d: int| 0 <= c < d < r@.len() ==> r@[c] < r@[d],
            forall|m: int|
                0 <= m < j ==> ((#[trigger] r@.contains(m as usize)) <==> (in_subtree(
                    *t,
                    root as int,
                    m,
                ) && t.nodes@[m].kind == k)),
        decreases n - j,
    {
        let ghost r0 = r@;
        if t.nodes[j].kind == k && is_in_subtree(t, root, j) {
            r.push(j);
            proof {
                assert(r@ == r0.push(j));
                assert(r@[r@.len() - 1] == j);
                assert forall|m: int| 0 <= m < j + 1 implies ((#[trigger] r@.contains(m as usize))
                    == (in_subtree(*t, root as int, m) && t.nodes@[m].kind == k)) by {
                    if m == j {
                        assert(r@.contains(j as usize));
                    } else {
                        assert(r0.contains(m as usize) <==> (in_subtree(*t, root as int, m)
                            && t.nodes@[m].kind == k));
                        if r0.contains(m as usize) {
                            let c = choose|c: int| 0 <= c < r0.len() && r0[c] == m as usize;
                            assert(r@[c] == m as usize);
                            assert(r@.contains(m as usize));
                        }
                        if r@.contains(m as usize) {
                            let c = choose|c: int| 0 <= c < r@.len() && r@[c] == m as usize;
                            if c == r@.len() - 1 {
                                assert(r@[c] == j);
                                assert(false);
                            } else {
                                assert(r0[c] == m as usize);
                                assert(r0.contains(m as usize));
                            }
                        }
                    }
                }
            }
        } else {
            proof {
                assert forall|m: int| 0 <= m < j + 1 implies ((#[trigger] r@.contains(m as usize))
                    == (in_subtree(*t, root as int, m) && t.nodes@[m].kind == k)) by {
                    if m == j {
                        if r@.contains(j as usize) {
                            let c = choose|c: int| 0 <= c < r@.len() && r@[c] == j as usize;
                            assert(r@[c] < j);
                            assert(false);
                        }
                    } else {
                        assert(r0.contains(m as usize) <==> (in_subtree(*t, root as int, m)
                            && t.nodes@[m].kind == k));
                        assert(r@ == r0);
                    }
                }
            }
        }
        j = j + 1;
    }
    r
}

/// The first child of `i` hanging off field `f`, scanning children in
/// order from position `j`.
pub open spec fn first_field_child_from(t: SyntaxTree, i: int, f: FieldTag, j: int) -> Option<
    usize,
>
    decreases t.nodes@[i].children@.len() - j,
{
    if j < 0 || j >= t.nodes@[i].children@.len() {
        None
    } else if t.nodes@[(t.nodes@[i].children@[j]) as int].field == f {
        Some(t.nodes@[i].children@[j])
    } else {
        first_field_child_from(t, i, f, j + 1)
    }
}

/// The first child of `i` hanging off field `f`.
pub open spec fn spec_child_by_field(t: SyntaxTree, i: int, f: FieldTag) -> Option<usize> {
    first_field_child_from(t, i, f, 0)
}

/// The least node index at or after `j` that lies in the subtree of
/// `root` and has kind `k`.
pub open spec fn first_of_kind_from(t: SyntaxTree, root: int, k: NodeKind, j: int) -> Option<int>
    decreases t.nodes@.len() - j,
{
    if j < 0 || j >= t.nodes@.len() {
        None
    } else if in_subtree(t, root, j) && t.nodes@[j].kind == k {
        Some(j)
    } else {
        first_of_kind_from(t, root, k, j + 1)
    }
}

/// The least node of kind `k` in the subtree of `root`.
pub open spec fn first_of_kind(t: SyntaxTree, root: int, k: NodeKind) -> Option<int> {
    first_of_kind_from(t, root, k, 0)
}

proof fn lemma_first_of_kind_skip(t: SyntaxTree, root: int, k: NodeKind, m: int)
    requires
        0 <= m <= t.nodes@.len(),
        forall|j: int| 0 <= j < m ==> !(in_subtree(t, root, j) && (#[trigger] t.nodes@[j]).kind == k),
    ensures
        first_of_kind(t, root, k) == first_of_kind_from(t, root, k, m),
    decreases m,
{
    if m > 0 {
        lemma_first_of_kind_skip(t, root, k, m - 1);
    }
}

/// The head of the collected kind list is the least matching node; an
/// empty list means there is none.
pub proof fn lemma_collected_head(t: SyntaxTree, root: int, k: NodeKind, r: Seq<usize>)
    requires
        forall|c: int| 0 <= c < r.len() ==> (#[trigger] r[c]) < t.nodes@.len(),
        forall|c: int, d: int| 0 <= c < d < r.len() ==> r[c] < r[d],
        forall|j: int|
            0 <= j < t.nodes@.len() ==> ((#[trigger] r.contains(j as usize)) <==> (in_subtree(
                t,
                root,
                j,
            ) && t.nodes@[j].kind == k)),
    ensures
        r.len() == 0 ==> first_of_kind(t, root, k) is None,
        r.len() > 0 ==> first_of_kind(t, root, k) == Some(r[0] as int),
{
    if r.len() == 0 {
        assert forall|j: int|
            0 <= j < t.nodes@.len() implies !(in_subtree(t, root, j) && (
        #[trigger] t.nodes@[j]).kind == k) by {
            assert(!r.contains(j as usize));
        }
        lemma_first_of_kind_skip(t, root, k, t.nodes@.len() as int);
    } else {
        let h = r[0] as int;
        assert(r.contains(r[0]));
        assert(0 <= h < t.nodes@.len());
        assert forall|j: int| 0 <= j < h implies !(in_subtree(t, root, j) && (
        #[trigger] t.nodes@[j]).kind == k) by {
            if r.contains(j as usize) {
                let c = choose|c: int| 0 <= c < r.len() && r[c] == j as usize;
                if c > 0 {
                    assert(r[0] < r[c]);
                }
            }
        }
        lemma_first_of_kind_skip(t, root, k, h);
        assert(r[0] == h as usize);
        assert(r.contains(h as usize));
        assert(in_subtree(t, root, h) && t.nodes@[h].kind == k);
    }
}

/// The first child of `i` hanging off field `f`, if any.
pub fn child_by_field(t: &SyntaxTree, i: usize, f: FieldTag) -> (r: Option<usize>)
    requires
        t.wf(),
        i < t.nodes@.len(),
    ensures
        r == spec_child_by_field(*t, i as int, f),
        r matches Some(c) ==> (i as int) < (c as int) < t.nodes@.len() && t.nodes@[c as int].field
            == f && t.nodes@[i as int].children@.contains(c),
        r is None ==> forall|j: int|
            0 <= j < t.nodes@[i as int].children@.len() ==> t.nodes@[(
            #[trigger] t.nodes@[i as int].children@[j]) as int].field != f,
{
    let node = &t.nodes[i];
    let mut j: usize = 0;
    while j < node.children.len()
        invariant
            t.wf(),
            i < t.nodes@.len(),
            node == t.nodes@[i as int],
            j <= node.children@.len(),
            spec_child_by_field(*t, i as int, f) == first_field_child_from(*t, i as int, f, j as int),
            forall|m: int|
                0 <= m < j ==> t.nodes@[(#[trigger] node.children@[m]) as int].field != f,
        decreases node.children@.len() - j,
    {
        let c = node.children[j];
        proof {
            assert(t.node_wf(t.nodes@[i as int], i as int));
        }
        if t.nodes[c].field == f {
            proof {
                assert(t.nodes@[i as int].children@[j as int] == c);
            }
            return Some(c);
        }
        j = j + 1;
    }
    None
}

/// The `idx`-th child of node `i`, if it exists.
pub fn child_at(t: &SyntaxTree, i: usize, idx: usize) -> (r: Option<usize>)
    requires
        t.wf(),
        i < t.nodes@.len(),
    ensures
        r matches Some(c) ==> (i as int) < (c as int) < t.nodes@.len() && (idx as int)
            < t.nodes@[i as int].children@.len() && c == t.nodes@[i as int].children@[idx as int],
        r is None ==> t.nodes@[i as int].children@.len() <= idx as int,
{
    let node = &t.nodes[i];
    proof {
        assert(t.node_wf(t.nodes@[i as int], i as int));
    }
    if idx < node.children.len() {
        Some(node.children[idx])
    } else {
        None
    }
}

/// The nearest proper ancestor of `j` of kind `k`, following parent links.
pub open spec fn spec_nearest_ancestor(t: SyntaxTree, j: int, k: NodeKind) -> Option<usize>
    decreases j,
{
    if 0 < j < t.nodes@.len() && (t.nodes@[j].parent as int) < j {
        let p = t.nodes@[j].parent;
        if t.nodes@[p as int].kind == k {
            Some(p)
        } else {
            spec_nearest_ancestor(t, p as int, k)
        }
    } else {
        None
    }
}

/// The nearest proper ancestor of `i` of kind `k`, if any.
pub fn get_parent_of_kind(t: &SyntaxTree, i: usize, k: NodeKind) -> (r: Option<usize>)
    requires
        t.wf(),
        i < t.nodes@.len(),
    ensures
        r == spec_nearest_ancestor(*t, i as int, k),
        r matches Some(p) ==> (p as int) < t.nodes@.len() && t.nodes@[p as int].kind == k,
        r is Some <==> has_ancestor_of_kind(*t, i as int, k),
{
    let mut cur = i;
    while cur != 0
        invariant
            t.wf(),
            cur < t.nodes@.len(),
            has_ancestor_of_kind(*t, i as int, k) == has_ancestor_of_kind(*t, cur as int, k),
            spec_nearest_ancestor(*t, i as int, k) == spec_nearest_ancestor(*t, cur as int, k),
        decreases cur,
    {
        let p = t.nodes[cur].parent;
        if t.nodes[p].kind == k {
            return Some(p);
        }
        cur = p;
    }
    None
}

/// Descends through `declarator` fields from `cur` for at most `fuel`
/// steps, stopping at the innermost declarator node.
pub open spec fn spec_var_descend(t: SyntaxTree, cur: int, fuel: nat) -> int
    decreases fuel,
{
    if fuel == 0 {
        cur
    } else {
        match spec_child_by_field(t, cur, FieldTag::Declarator) {
            Some(nx) => spec_var_descend(t, nx as int, (fuel - 1) as nat),
            None => cur,
        }
    }
}

/// The variable node a declaration binds: the innermost node reached by
/// following `declarator` fields from the declaration.
pub open spec fn spec_decl_var(t: SyntaxTree, decl: int) -> Option<usize> {
    match spec_child_by_field(t, decl, FieldTag::Declarator) {
        Some(first) => Some(spec_var_descend(t, first as int, t.nodes@.len()) as usize),
        None => None,
    }
}

/// The variable node a declaration binds: the innermost node reached by
/// following `declarator` fields from the declaration.
pub fn get_var_name_from_decl(t: &SyntaxTree, decl: usize) -> (r: Option<usize>)
    requires
        t.wf(),
        decl < t.nodes@.len(),
    ensures
        r == spec_decl_var(*t, decl as int),
        r matches Some(v) ==> (v as int) < t.nodes@.len(),
{
    let first = match child_by_field(t, decl, FieldTag::Declarator) {
        Some(c) => c,
        None => {
            return None;
        },
    };
    let mut cur = first;
    let n = t.nodes.len();
    let mut fuel = n;
    while fuel > 0
        invariant
            t.wf(),
            cur < t.nodes@.len(),
            spec_decl_var(*t, decl as int) == Some(
                spec_var_descend(*t, cur as int, fuel as nat) as usize,
            ),
        decreases fuel,
    {
        match child_by_field(t, cur, FieldTag::Declarator) {
            Some(next) => {
                cur = next;
            },
            None => {
                return Some(cur);
            },
        }
        fuel = fuel - 1;
    }
    Some(cur)
}

/// The left-hand side of an assignment expression.
pub fn get_var_name_from_assign(t: &SyntaxTree, assign: usize) -> (r: Option<usize>)
    requires
        t.wf(),
        assign < t.nodes@.len(),
    ensures
        r == spec_child_by_field(*t, assign as int, FieldTag::Left),
        r matches Some(v) ==> (v as int) < t.nodes@.len(),
{
    child_by_field(t, assign, FieldTag::Left)
}

/// The node naming a function definition: the `declarator` field of its
/// first (outermost) function declarator.
pub open spec fn spec_fn_identifier(t: SyntaxTree, fn_def: int) -> Option<usize> {
    match first_of_kind(t, fn_def, NodeKind::FunctionDeclarator) {
        Some(fd) => spec_child_by_field(t, fd, FieldTag::Declarator),
        None => None,
    }
}

/// The node naming a function definition: the `declarator` field of its
/// outermost function declarator.
pub fn get_fn_identifier(t: &SyntaxTree, fn_def: usize) -> (r: Option<usize>)
    requires
        t.wf(),
        fn_def < t.nodes@.len(),
    ensures
        r == spec_fn_identifier(*t, fn_def as int),
        r matches Some(v) ==> (v as int) < t.nodes@.len(),
{
    let declarators = get_children_of_kind(t, fn_def, NodeKind::FunctionDeclarator);
    proof {
        lemma_collected_head(*t, fn_def as int, NodeKind::FunctionDeclarator, declarators@);
    }
    if declarators.len() == 0 {
        return None;
    }
    let fd = declarators[0];
    child_by_field(t, fd, FieldTag::Declarator)
}

} // verus!

//! Text edits against original-buffer byte offsets, and their batch
//! application: duplicate suppression, ordering by descending start offset,
//! an overlap check, and the splice loop itself.
//!
//! All edits address the original buffer; applying from the highest offset
//! downward keeps every not-yet-applied edit's offsets valid.

use vstd::prelude::*;

use vstd::utf8::encode_utf8;

verus! {

broadcast use vstd::seq_lib::group_to_multiset_ensures;

/// How an edit changes the buffer: a point insertion, or the replacement of
/// a byte range whose exclusive end is carried by the variant.
pub enum EditKind {
    Insert,
    Replace(usize),
}

/// One text edit: content to write, and where, in original-buffer offsets.
pub struct Edit {
    pub content: String,
    pub start_pos: usize,
    pub kind: EditKind,
}

impl Edit {
    /// The exclusive end of the byte range this edit rewrites; an insertion
    /// rewrites the empty range at its start offset.
    pub open spec fn end_pos(&self) -> int {
        match self.kind {
            EditKind::Insert => self.start_pos as int,
            EditKind::Replace(e) => e as int,
        }
    }

    /// The bytes this edit writes into the buffer.
    pub open spec fn insert_bytes(&self) -> Seq<u8> {
        encode_utf8(self.content@)
    }

    /// The identity under which duplicate edits are suppressed.
    pub open spec fn key(&self) -> (int, Seq<char>) {
        (self.start_pos as int, self.content@)
    }

    /// A point insertion of `content` at byte offset `insert_pos`.
    pub fn new_insert(content: String, insert_pos: usize) -> (e: Edit)
        ensures
            e.content == content,
            e.start_pos == insert_pos,
            e.kind is Insert,
    {
        Edit { content, start_pos: insert_pos, kind: EditKind::Insert }
    }

    /// A replacement of the byte range `start_pos..end_pos` by `content`.
    pub fn new_replace(content: String, start_pos: usize, end_pos: usize) -> (e: Edit)
        ensures
            e.content == content,
            e.start_pos == start_pos,
            e.kind == EditKind::Replace(end_pos),
    {
        Edit { content, start_pos, kind: EditKind::Replace(end_pos) }
    }
}

/// Exclusive end of the byte range this edit rewrites, as a machine value.
impl Edit {
    pub fn end_position(&self) -> (r: usize)
        ensures
            r as int == self.end_pos(),
    {
        match self.kind {
            EditKind::Insert => self.start_pos,
            EditKind::Replace(e) => e,
        }
    }
}

/// The edit's range lies within a buffer of length `len`.
pub open spec fn edit_in_bounds(e: Edit, len: int) -> bool {
    e.start_pos <= e.end_pos() <= len
}

/// The batch can be applied in sequence to a buffer of length `len`: every
/// edit is in bounds and each subsequent edit ends at or before the start of
/// the previous one (descending, non-overlapping).
pub open spec fn edits_applicable(s: Seq<Edit>, len: int) -> bool {
    &&& forall|i: int| 0 <= i < s.len() ==> edit_in_bounds(#[trigger] s[i], len)
    &&& forall|i: int| 0 <= i && i + 1 < s.len() ==> (#[trigger] s[i + 1]).end_pos()
        <= s[i].start_pos
}

/// Starts are in descending (non-increasing) order.
pub open spec fn sorted_desc(s: Seq<Edit>) -> bool {
    forall|i: int, j: int|
        0 <= i < j < s.len() ==> (#[trigger] s[i]).start_pos >= (#[trigger] s[j]).start_pos
}

/// No two edits share a start offset.
pub open spec fn distinct_starts(s: Seq<Edit>) -> bool {
    forall|i: int, j: int|
        0 <= i < j < s.len() ==> (#[trigger] s[i]).start_pos != (#[trigger] s[j]).start_pos
}

/// `buf` with the byte range `start..end` replaced by `ins`.
pub open spec fn spec_splice(buf: Seq<u8>, start: int, end: int, ins: Seq<u8>) -> Seq<u8> {
    buf.subrange(0, start) + ins + buf.subrange(end, buf.len() as int)
}

/// The edits of `s` applied to `buf` in sequence, each at its own offsets
/// against the buffer as left by its predecessors.
pub open spec fn spec_apply(buf: Seq<u8>, s: Seq<Edit>) -> Seq<u8>
    decreases s.len(),
{
    if s.len() == 0 {
        buf
    } else {
        spec_apply(spec_splice(buf, s[0].start_pos as int, s[0].end_pos(), s[0].insert_bytes()), s.drop_first())
    }
}

/// Total number of bytes the batch removes.
pub open spec fn sum_removed(s: Seq<Edit>) -> int
    decreases s.len(),
{
    if s.len() == 0 {
        0
    } else {
        (s[0].end_pos() - s[0].start_pos) + sum_removed(s.drop_first())
    }
}

/// Total number of bytes the batch writes.
pub open spec fn sum_inserted(s: Seq<Edit>) -> int
    decreases s.len(),
{
    if s.len() == 0 {
        0
    } else {
        s[0].insert_bytes().len() + sum_inserted(s.drop_first())
    }
}

/// Applying a batch of non-overlapping, descending edits changes the buffer
/// length by exactly the bytes inserted minus the bytes removed.
pub proof fn lemma_apply_len(buf: Seq<u8>, s: Seq<Edit>)
    requires
        edits_applicable(s, buf.len() as int),
    ensures
        spec_apply(buf, s).len() == buf.len() - sum_removed(s) + sum_inserted(s),
    decreases s.len(),
{
    if s.len() == 0 {
    } else {
        let e = s[0];
        let buf1 = spec_splice(buf, e.start_pos as int, e.end_pos(), e.insert_bytes());
        assert(buf1.len() == buf.len() - (e.end_pos() - e.start_pos) + e.insert_bytes().len());
        let t = s.drop_first();
        assert forall|i: int| 0 <= i < t.len() implies edit_in_bounds(#[trigger] t[i], buf1.len() as int) by {
            assert(t[i] == s[i + 1]);
            lemma_ends_below_first_start(s, buf.len() as int, i + 1);
            assert(t[i].end_pos() <= s[0].start_pos);
            assert(s[0].start_pos <= buf1.len());
        }
        assert(edits_applicable(t, buf1.len() as int));
        lemma_apply_len(buf1, t);
    }
}

/// In an applicable batch, every later edit ends at or before the first
/// edit's start.
proof fn lemma_ends_below_first_start(s: Seq<Edit>, len: int, i: int)
    requires
        edits_applicable(s, len),
        0 < i < s.len(),
    ensures
        s[i].end_pos() <= s[0].start_pos,
    decreases i,
{
    if i == 1 {
        assert(s[0int + 1].end_pos() <= s[0int].start_pos);
    } else {
        lemma_ends_below_first_start(s, len, i - 1);
        assert(s[(i - 1) + 1int].end_pos() <= s[i - 1int].start_pos);
        assert(edit_in_bounds(s[i - 1], len));
    }
}

/// A batch sorted by strictly descending start offsets is the unique such
/// arrangement of its multiset: any two agree edit for edit. Hence the result
/// of applying a batch does not depend on the order edits were collected in.
pub proof fn lemma_sorted_desc_unique(s1: Seq<Edit>, s2: Seq<Edit>)
    requires
        sorted_desc(s1),
        sorted_desc(s2),
        distinct_starts(s1),
        distinct_starts(s2),
        s1.to_multiset() == s2.to_multiset(),
    ensures
        s1 == s2,
    decreases s1.len(),
{
    if s1.len() == 0 {
        assert(s1.to_multiset().len() == 0);
        assert(s2.to_multiset().len() == 0);
        assert(s2.len() == 0);
        assert(s1 =~= s2);
    } else {
        assert(s1.contains(s1[0]));
        assert(s1.to_multiset().count(s1[0]) > 0);
        assert(s2.to_multiset().count(s1[0]) > 0);
        assert(s2.contains(s1[0]));
        let j = choose|j: int| 0 <= j < s2.len() && s2[j] == s1[0];
        assert(s2.len() > 0);
        assert(s2.contains(s2[0]));
        assert(s2.to_multiset().count(s2[0]) > 0);
        assert(s1.to_multiset().count(s2[0]) > 0);
        assert(s1.contains(s2[0]));
        let k = choose|k: int| 0 <= k < s1.len() && s1[k] == s2[0];
        assert(s1[0].start_pos >= s1[k].start_pos);
        assert(s2[0].start_pos >= s2[j].start_pos);
        assert(s1[0].start_pos == s2[0].start_pos);
        if j != 0 {
            assert(s2[0].start_pos != s2[j].start_pos);
            assert(false);
        }
        assert(s2[0] == s1[0]);
        let t1 = s1.drop_first();
        let t2 = s2.drop_first();
        assert(s1.drop_first() =~= s1.remove(0));
        assert(s2.drop_first() =~= s2.remove(0));
        assert(t1.to_multiset() == s1.to_multiset().remove(s1[0]));
        assert(t2.to_multiset() == s2.to_multiset().remove(s2[0]));
        assert(t1.to_multiset() == t2.to_multiset());
        assert(sorted_desc(t1)) by {
            assert(forall|i: int, j2: int|
                0 <= i < j2 < t1.len() ==> t1[i] == s1[i + 1] && t1[j2] == s1[j2 + 1]);
        }
        assert(sorted_desc(t2)) by {
            assert(forall|i: int, j2: int|
                0 <= i < j2 < t2.len() ==> t2[i] == s2[i + 1] && t2[j2] == s2[j2 + 1]);
        }
        assert(distinct_starts(t1)) by {
            assert(forall|i: int, j2: int|
                0 <= i < j2 < t1.len() ==> t1[i] == s1[i + 1] && t1[j2] == s1[j2 + 1]);
        }
        assert(distinct_starts(t2)) by {
            assert(forall|i: int, j2: int|
                0 <= i < j2 < t2.len() ==> t2[i] == s2[i + 1] && t2[j2] == s2[j2 + 1]);
        }
        lemma_sorted_desc_unique(t1, t2);
        assert(s1.to_multiset().len() == s1.len());
        assert(s2.to_multiset().len() == s2.len());
        assert forall|i: int| 0 <= i < s1.len() implies s1[i] == s2[i] by {
            if i > 0 {
                assert(s1[i] == t1[i - 1]);
                assert(s2[i] == t2[i - 1]);
            }
        }
        assert(s1 =~= s2);
    }
}

/// Determinism of batch application: whatever order edits were collected
/// in, once they are sorted by their (pairwise distinct) start offsets the
/// arrangement is unique, so applying them yields one and the same buffer.
pub proof fn lemma_apply_deterministic(buf: Seq<u8>, s1: Seq<Edit>, s2: Seq<Edit>)
    requires
        sorted_desc(s1),
        sorted_desc(s2),
        distinct_starts(s1),
        distinct_starts(s2),
        s1.to_multiset() == s2.to_multiset(),
    ensures
        spec_apply(buf, s1) == spec_apply(buf, s2),
{
    lemma_sorted_desc_unique(s1, s2);
}

fn max_start_index(v: &Vec<Edit>) -> (m: usize)
    requires
        v@.len() > 0,
    ensures
        m < v@.len(),
        forall|j: int| 0 <= j < v@.len() ==> v@[m as int].start_pos >= (#[trigger] v@[j]).start_pos,
{
    let mut m: usize = 0;
    let mut i: usize = 1;
    while i < v.len()
        invariant
            m < i <= v@.len(),
            forall|j: int| 0 <= j < i ==> v@[m as int].start_pos >= (#[trigger] v@[j]).start_pos,
        decreases v@.len() - i,
    {
        if v[i].start_pos > v[m].start_pos {
            m = i;
        }
        i = i + 1;
    }
    m
}

/// Orders a batch by descending start offset. Among edits sharing a start
/// offset, collection order is kept.
pub fn sort_edits(edits: Vec<Edit>) -> (r: Vec<Edit>)
    ensures
        sorted_desc(r@),
        r@.to_multiset() == edits@.to_multiset(),
{
    let ghost orig = edits@;
    let mut input = edits;
    let mut out: Vec<Edit> = Vec::new();
    while input.len() > 0
        invariant
            out@.to_multiset().add(input@.to_multiset()) == orig.to_multiset(),
            sorted_desc(out@),
            forall|i: int, j: int|
                0 <= i < out@.len() && 0 <= j < input@.len() ==> (#[trigger] out@[i]).start_pos
                    >= (#[trigger] input@[j]).start_pos,
        decreases input.len(),
    {
        let ghost in0 = input@;
        let ghost out0 = out@;
        let m = max_start_index(&input);
        let e = input.remove(m);
        out.push(e);
        proof {
            assert(input@.to_multiset() == in0.to_multiset().remove(e));
            assert(out@.to_multiset() == out0.to_multiset().insert(e));
            assert(in0.to_multiset().count(e) > 0) by {
                assert(in0.contains(e));
            }
            assert(out@.to_multiset().add(input@.to_multiset()) =~= orig.to_multiset());
            assert forall|i: int, j: int|
                0 <= i < out@.len() && 0 <= j < input@.len() implies (#[trigger] out@[i]).start_pos
                >= (#[trigger] input@[j]).start_pos by {
                if j < m {
                    assert(input@[j] == in0[j]);
                } else {
                    assert(input@[j] == in0[j + 1]);
                }
                if i < out0.len() {
                    assert(out@[i] == out0[i]);
                } else {
                    assert(out@[i] == e);
                }
            }
        }
    }
    out
}

fn key_eq(a: &Edit, b: &Edit) -> (r: bool)
    ensures
        r <==> a.key() == b.key(),
{
    if a.start_pos != b.start_pos {
        return false;
    }
    let same = a.content.eq(&b.content);
    proof {
        if a.content@ == b.content@ {
            assert(a.key() == b.key());
        }
    }
    same
}

/// Some edit of `s` has this dedup identity.
pub open spec fn has_key(s: Seq<Edit>, k: (int, Seq<char>)) -> bool {
    exists|i: int| 0 <= i < s.len() && (#[trigger] s[i]).key() == k
}

/// The dedup identities present in `s`.
pub open spec fn keys_of(s: Seq<Edit>) -> Set<(int, Seq<char>)> {
    Set::new(|k: (int, Seq<char>)| has_key(s, k))
}

/// Appending an edit adds exactly its identity to the key set.
proof fn lemma_keys_push(s: Seq<Edit>, e: Edit)
    ensures
        keys_of(s.push(e)) == keys_of(s).insert(e.key()),
{
    assert forall|k: (int, Seq<char>)| keys_of(s.push(e)).contains(k) implies keys_of(s).insert(
        e.key(),
    ).contains(k) by {
        let i = choose|i: int| 0 <= i < s.push(e).len() && (#[trigger] s.push(e)[i]).key() == k;
        if i < s.len() {
            assert(s[i].key() == k);
        } else {
            assert(s.push(e)[i] == e);
        }
    }
    assert forall|k: (int, Seq<char>)| keys_of(s).insert(e.key()).contains(k) implies keys_of(
        s.push(e),
    ).contains(k) by {
        if k == e.key() {
            assert(s.push(e)[s.len() as int].key() == k);
        } else {
            let i = choose|i: int| 0 <= i < s.len() && (#[trigger] s[i]).key() == k;
            assert(s.push(e)[i].key() == k);
        }
    }
    assert(keys_of(s.push(e)) =~= keys_of(s).insert(e.key()));
}

/// Keep-first duplicate suppression: drops every edit whose identity was
/// already seen, scanning left to right.
pub open spec fn spec_dedup(s: Seq<Edit>, seen: Set<(int, Seq<char>)>) -> Seq<Edit>
    decreases s.len(),
{
    if s.len() == 0 {
        Seq::empty()
    } else if seen.contains(s[0].key()) {
        spec_dedup(s.drop_first(), seen)
    } else {
        seq![s[0]] + spec_dedup(s.drop_first(), seen.insert(s[0].key()))
    }
}

fn contains_key(v: &Vec<Edit>, e: &Edit) -> (r: bool)
    ensures
        r <==> keys_of(v@).contains(e.key()),
{
    let mut i: usize = 0;
    while i < v.len()
        invariant
            i <= v@.len(),
            forall|j: int| 0 <= j < i ==> (#[trigger] v@[j]).key() != e.key(),
        decreases v@.len() - i,
    {
        if key_eq(&v[i], e) {
            proof {
                assert((v@[i as int]).key() == e.key());
            }
            return true;
        }
        i = i + 1;
    }
    proof {
        if keys_of(v@).contains(e.key()) {
            let j = choose|j: int| 0 <= j < v@.len() && (#[trigger] v@[j]).key() == e.key();
            assert(v@[j].key() != e.key());
        }
    }
    false
}

fn dedup_go(input: Vec<Edit>, out: Vec<Edit>) -> (r: Vec<Edit>)
    ensures
        r@ == out@ + spec_dedup(input@, keys_of(out@)),
    decreases input.len(),
{
    let mut input = input;
    let mut out = out;
    if input.len() == 0 {
        proof {
            assert(out@ + spec_dedup(input@, keys_of(out@)) =~= out@);
        }
        return out;
    }
    let ghost in0 = input@;
    let e = input.remove(0);
    proof {
        assert(in0.drop_first() =~= input@);
    }
    if contains_key(&out, &e) {
        let r = dedup_go(input, out);
        r
    } else {
        let ghost out0 = out@;
        out.push(e);
        proof {
            lemma_keys_push(out0, e);
            assert(keys_of(out@) == keys_of(out0).insert(e.key()));
        }
        let r = dedup_go(input, out);
        proof {
            assert(out0 + seq![e] =~= out@);
            assert(out0 + (seq![e] + spec_dedup(in0.drop_first(), keys_of(out0).insert(e.key())))
                =~= out@ + spec_dedup(in0.drop_first(), keys_of(out@)));
            assert(r@ == out0 + spec_dedup(in0, keys_of(out0)));
        }
        r
    }
}

/// Suppresses duplicate edits, keeping the first occurrence of each
/// (start offset, content) identity in collection order.
pub fn dedup_edits(edits: Vec<Edit>) -> (r: Vec<Edit>)
    ensures
        r@ == spec_dedup(edits@, Set::empty()),
{
    let ghost e0 = edits@;
    let out: Vec<Edit> = Vec::new();
    let r = dedup_go(edits, out);
    proof {
        assert(keys_of(Seq::<Edit>::empty()) =~= Set::<(int, Seq<char>)>::empty());
        assert(Seq::<Edit>::empty() + spec_dedup(e0, Set::empty()) =~= spec_dedup(
            e0,
            Set::empty(),
        ));
    }
    r
}

/// After duplicate suppression no two edits share an identity, whatever was
/// seen before: each (start offset, content) pair survives at most once.
pub proof fn lemma_dedup_distinct(s: Seq<Edit>, seen: Set<(int, Seq<char>)>)
    ensures
        forall|i: int, j: int|
            0 <= i < j < spec_dedup(s, seen).len() ==> (#[trigger] spec_dedup(s, seen)[i]).key()
                != (#[trigger] spec_dedup(s, seen)[j]).key(),
        forall|i: int| 0 <= i < spec_dedup(s, seen).len() ==> !seen.contains(
            (#[trigger] spec_dedup(s, seen)[i]).key(),
        ),
    decreases s.len(),
{
    if s.len() == 0 {
    } else if seen.contains(s[0].key()) {
        lemma_dedup_distinct(s.drop_first(), seen);
        assert(spec_dedup(s, seen) == spec_dedup(s.drop_first(), seen));
    } else {
        lemma_dedup_distinct(s.drop_first(), seen.insert(s[0].key()));
        let d = spec_dedup(s, seen);
        let dt = spec_dedup(s.drop_first(), seen.insert(s[0].key()));
        assert(d == seq![s[0]] + dt);
        assert(d[0] == s[0]);
        assert forall|i: int, j: int| 0 <= i < j < d.len() implies (#[trigger] d[i]).key()
            != (#[trigger] d[j]).key() by {
            assert(d[j] == dt[j - 1]);
            assert(!seen.insert(s[0].key()).contains(dt[j - 1].key()));
            if i == 0 {
                assert(dt[j - 1].key() != s[0].key());
            } else {
                assert(d[i] == dt[i - 1]);
            }
        }
        assert forall|i: int| 0 <= i < d.len() implies !seen.contains((#[trigger] d[i]).key()) by {
            if i > 0 {
                assert(d[i] == dt[i - 1]);
                assert(!seen.insert(s[0].key()).contains(dt[i - 1].key()));
            }
        }
    }
}

fn vec_append_range(out: &mut Vec<u8>, src: &Vec<u8>, from: usize, to: usize)
    requires
        from <= to <= src@.len(),
    ensures
        final(out)@ == old(out)@ + src@.subrange(from as int, to as int),
{
    let mut i: usize = from;
    while i < to
        invariant
            from <= i <= to <= src@.len(),
            out@ == old(out)@ + src@.subrange(from as int, i as int),
        decreases to - i,
    {
        out.push(src[i]);
        proof {
            assert(out@ =~= old(out)@ + src@.subrange(from as int, i as int + 1));
        }
        i = i + 1;
    }
}

fn splice_bytes(buf: &Vec<u8>, start: usize, end: usize, ins: &Vec<u8>) -> (r: Vec<u8>)
    requires
        start <= end <= buf@.len(),
    ensures
        r@ == spec_splice(buf@, start as int, end as int, ins@),
{
    let mut r: Vec<u8> = Vec::new();
    vec_append_range(&mut r, buf, 0, start);
    vec_append_range(&mut r, ins, 0, ins.len());
    vec_append_range(&mut r, buf, end, buf.len());
    proof {
        assert(ins@.subrange(0, ins@.len() as int) =~= ins@);
        assert(r@ =~= spec_splice(buf@, start as int, end as int, ins@));
    }
    r
}

/// Decides `edits_applicable`: every edit in bounds for a buffer of length
/// `len`, and each subsequent edit ending at or before its predecessor's
/// start.
pub fn check_applicable(edits: &Vec<Edit>, len: usize) -> (r: bool)
    ensures
        r == edits_applicable(edits@, len as int),
{
    let n = edits.len();
    let mut i: usize = 0;
    while i < n
        invariant
            i <= n,
            n == edits@.len(),
            forall|k: int| 0 <= k < i ==> edit_in_bounds(#[trigger] edits@[k], len as int),
            forall|k: int|
                0 <= k && k + 1 < n && k + 1 <= i ==> (#[trigger] edits@[k + 1]).end_pos()
                    <= edits@[k].start_pos,
        decreases n - i,
    {
        let e = &edits[i];
        let ep = e.end_position();
        if e.start_pos > ep || ep > len {
            return false;
        }
        if i + 1 < n {
            let nx = &edits[i + 1];
            if nx.end_position() > e.start_pos {
                proof {
                    assert(edits@[i as int + 1].end_pos() > edits@[i as int].start_pos);
                }
                return false;
            }
        }
        i = i + 1;
    }
    true
}

/// Applies a sorted, non-overlapping batch to the original buffer, highest
/// start offset first, and returns the rewritten buffer.
pub fn apply_edits(buf: &Vec<u8>, edits: &Vec<Edit>) -> (r: Vec<u8>)
    requires
        edits_applicable(edits@, buf@.len() as int),
    ensures
        r@ == spec_apply(buf@, edits@),
{
    let mut cur: Vec<u8> = Vec::new();
    vec_append_range(&mut cur, buf, 0, buf.len());
    proof {
        assert(cur@ =~= buf@);
        assert(edits@.skip(0) =~= edits@);
    }
    let mut i: usize = 0;
    while i < edits.len()
        invariant
            i <= edits@.len(),
            edits_applicable(edits@, buf@.len() as int),
            spec_apply(buf@, edits@) == spec_apply(cur@, edits@.skip(i as int)),
            i < edits@.len() ==> edits@[i as int].end_pos() <= cur@.len(),
        decreases edits@.len() - i,
    {
        let e = &edits[i];
        let ghost cur0 = cur@;
        let start = e.start_pos;
        let end = match e.kind {
            EditKind::Insert => e.start_pos,
            EditKind::Replace(p) => p,
        };
        let ins = e.content.as_str().as_bytes_vec();
        proof {
            assert(ins@ == edits@[i as int].insert_bytes());
        }
        let next = splice_bytes(&cur, start, end, &ins);
        cur = next;
        proof {
            let s = edits@.skip(i as int);
            assert(s[0] == edits@[i as int]);
            assert(s.drop_first() =~= edits@.skip(i as int + 1));
            assert(spec_apply(cur0, s) == spec_apply(cur@, edits@.skip(i as int + 1)));
            if i + 1 < edits@.len() {
                assert(edits@[i as int + 1].end_pos() <= edits@[i as int].start_pos);
                assert(cur@.len() >= edits@[i as int].start_pos);
            }
        }
        i = i + 1;
    }
    proof {
        assert(edits@.skip(edits@.len() as int) =~= Seq::<Edit>::empty());
    }
    cur
}

} // verus!

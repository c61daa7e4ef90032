//! Comparison of whole F06 files: which blocks can be compared, and what
//! comparing them gives.

use vstd::prelude::*;

use crate::blocks::FinalBlock;
use crate::compare::{
    comparable, compat_check, compat_view, diff_positions, positions_listed, BlockCompatibility, CompatView,
    DisjunctionBehaviour, PositionPair,
};
use crate::f06file::{bref_lt, brefs_sorted, has_bref, lemma_bref_order, lemma_bref_unique, F06File, BlockRef};

verus! {

/// Why a block reference was not compared.
#[derive(Clone, Debug)]
pub enum NonCompareReason {
    /// One of the files has no block for the reference; holds the name of
    /// that file, if known.
    NoCounterpart(Option<String>),
    /// One of the files has more than one block for the reference; holds
    /// the name of that file, if known.
    NotUniqueInOne(Option<String>),
    /// Both files have more than one block for the reference.
    NotUniqueInBoth,
    /// The blocks are not compatible.
    NotCompatible(BlockCompatibility),
}

/// The view of a reason for not comparing.
pub ghost enum ReasonView {
    /// No counterpart in the named file.
    NoCounterpart(Option<Seq<char>>),
    /// Not unique in the named file.
    NotUniqueInOne(Option<Seq<char>>),
    /// Not unique in either file.
    NotUniqueInBoth,
    /// Not compatible, with the outcome of the structural comparison.
    NotCompatible(CompatView),
}

/// The view of an optional file name.
pub open spec fn name_view(n: Option<String>) -> Option<Seq<char>> {
    match n {
        Some(s) => Some(s@),
        None => None,
    }
}

/// The view of a reason.
pub open spec fn reason_view(r: NonCompareReason) -> ReasonView {
    match r {
        NonCompareReason::NoCounterpart(n) => ReasonView::NoCounterpart(name_view(n)),
        NonCompareReason::NotUniqueInOne(n) => ReasonView::NotUniqueInOne(name_view(n)),
        NonCompareReason::NotUniqueInBoth => ReasonView::NotUniqueInBoth,
        NonCompareReason::NotCompatible(c) => ReasonView::NotCompatible(compat_view(c)),
    }
}

/// The number of blocks a file has for a reference.
pub open spec fn count_for(f: F06File, br: BlockRef) -> int {
    if f.blocks_view().contains_key(br) { f.blocks_view()[br].len() as int } else { 0 }
}

/// Why a reference with `na` blocks in the first file and `nb` in the
/// second is not compared, if it is not; the file names are those of the
/// first and second files.
pub open spec fn reason_for(na: int, nb: int, afn: Option<Seq<char>>, bfn: Option<Seq<char>>) -> Option<ReasonView> {
    if na == 0 && nb == 1 {
        Some(ReasonView::NoCounterpart(afn))
    } else if na == 1 && nb == 0 {
        Some(ReasonView::NoCounterpart(bfn))
    } else if na == 1 && nb == 1 {
        None
    } else if nb == 1 {
        Some(ReasonView::NotUniqueInOne(afn))
    } else if na == 1 {
        Some(ReasonView::NotUniqueInOne(bfn))
    } else {
        Some(ReasonView::NotUniqueInBoth)
    }
}

/// Why a reference is not compared, if it is not: for the counts of its
/// blocks in the two files, or, when each file has one block for it, for
/// the two blocks being incompatible.
pub open spec fn ref_reason(a: F06File, b: F06File, br: BlockRef) -> Option<ReasonView> {
    let na = count_for(a, br);
    let nb = count_for(b, br);
    if na == 1 && nb == 1 {
        let ba = a.blocks_view()[br][0];
        let bb = b.blocks_view()[br][0];
        if comparable(ba, bb) {
            None
        } else {
            Some(ReasonView::NotCompatible(compat_check(ba, bb)))
        }
    } else {
        reason_for(na, nb, name_view(a.filename), name_view(b.filename))
    }
}

/// The block references are in strictly increasing order.
pub open spec fn refs_sorted(s: Seq<BlockRef>) -> bool {
    forall|i: int, j: int| 0 <= i < j < s.len() ==> bref_lt(#[trigger] s[i], #[trigger] s[j])
}

/// The differences found between two F06 files.
#[derive(Clone, Debug)]
pub struct F06Diff {
    /// The blocks that were compared, with what comparing them gives, in
    /// order of reference.
    pub compared: Vec<(BlockRef, Vec<PositionPair>)>,
    /// The blocks that were not compared, with the reason, in order of
    /// reference.
    pub not_compared: Vec<(BlockRef, NonCompareReason)>,
}

/// A copy of an optional file name.
fn copy_name(n: &Option<String>) -> (r: Option<String>)
    ensures
        name_view(r) == name_view(*n),
{
    match n {
        Some(s) => {
            let cs = crate::text::chars_of(s.as_str());
            Some(crate::text::string_of(cs.as_slice()))
        },
        None => None,
    }
}

/// The blocks a file has for a reference.
fn blocks_for<'a>(f: &'a F06File, br: BlockRef) -> (r: Option<&'a Vec<FinalBlock>>)
    requires
        f.wf(),
    ensures
        r is Some == f.blocks_view().contains_key(br),
        r matches Some(v) ==> v@ == f.blocks_view()[br],
{
    let mut i: usize = 0;
    while i < f.blocks.len()
        invariant
            f.wf(),
            i <= f.blocks@.len(),
            forall|j: int| 0 <= j < i ==> f.blocks@[j].0 != br,
        decreases f.blocks.len() - i,
    {
        if f.blocks[i].0 == br {
            proof {
                lemma_bref_unique(f.blocks@, i as int);
            }
            return Some(&f.blocks[i].1);
        }
        i = i + 1;
    }
    None
}

/// All the block references of two files, in order.
fn union_refs(a: &F06File, b: &F06File) -> (r: Vec<BlockRef>)
    requires
        a.wf(),
        b.wf(),
    ensures
        refs_sorted(r@),
        forall|br: BlockRef| r@.contains(br) <==> (a.blocks_view().contains_key(br) || b.blocks_view().contains_key(br)),
{
    let mut r: Vec<BlockRef> = Vec::new();
    let mut i: usize = 0;
    let mut j: usize = 0;
    let ghost sa = a.blocks@;
    let ghost sb = b.blocks@;
    while i < a.blocks.len() || j < b.blocks.len()
        invariant
            sa == a.blocks@,
            sb == b.blocks@,
            brefs_sorted(sa),
            brefs_sorted(sb),
            i <= sa.len(),
            j <= sb.len(),
            refs_sorted(r@),
            r@.len() > 0 && i < sa.len() ==> bref_lt(r@.last(), sa[i as int].0),
            r@.len() > 0 && j < sb.len() ==> bref_lt(r@.last(), sb[j as int].0),
            forall|br: BlockRef| r@.contains(br) <==> ((exists|k: int| 0 <= k < i && #[trigger] sa[k].0 == br) || (exists|k: int| 0 <= k < j && #[trigger] sb[k].0 == br)),
        decreases sa.len() - i + sb.len() - j,
    {
        let ghost before = r@;
        let take_a = j >= b.blocks.len() || (i < a.blocks.len() && a.blocks[i].0.less(&b.blocks[j].0));
        let take_b = i >= a.blocks.len() || (j < b.blocks.len() && b.blocks[j].0.less(&a.blocks[i].0));
        let x = if take_a { a.blocks[i].0 } else { b.blocks[j].0 };
        r.push(x);
        let ghost i0: int = i as int;
        let ghost j0: int = j as int;
        if take_a {
            i = i + 1;
        } else if take_b {
            j = j + 1;
        } else {
            // the same reference in both
            proof {
                lemma_bref_order(a.blocks@[i as int].0, b.blocks@[j as int].0, a.blocks@[i as int].0);
            }
            i = i + 1;
            j = j + 1;
        }
        proof {
            assert(r@.last() == x);
            if i < sa.len() {
                assert(bref_lt(sa[i0].0, sa[i as int].0) || i0 == i);
                if i == i0 {
                    assert(!take_a);
                    if take_b {
                        lemma_bref_order(x, sa[i as int].0, x);
                    }
                } else {
                    if !take_a {
                        lemma_bref_order(x, sa[i0].0, sa[i as int].0);
                    }
                }
            }
            if j < sb.len() {
                if j == j0 {
                    assert(take_a);
                    if j < sb.len() {
                        lemma_bref_order(x, sb[j as int].0, x);
                    }
                } else {
                    assert(bref_lt(sb[j0].0, sb[j as int].0));
                    if take_a {
                        lemma_bref_order(x, sb[j0].0, sb[j as int].0);
                    }
                }
            }
            assert forall|p: int, q: int| 0 <= p < q < r@.len() implies bref_lt(#[trigger] r@[p], #[trigger] r@[q]) by {
                if q == r@.len() - 1 && p < before.len() {
                    assert(r@[p] == before[p]);
                    if p < before.len() - 1 {
                        assert(bref_lt(before[p], before.last()));
                        if take_a {
                            lemma_bref_order(before[p], before.last(), x);
                        } else {
                            lemma_bref_order(before[p], before.last(), x);
                        }
                    }
                } else if q < before.len() {
                    assert(r@[p] == before[p] && r@[q] == before[q]);
                }
            }
            assert forall|br: BlockRef| r@.contains(br) <==> ((exists|k: int| 0 <= k < i && #[trigger] sa[k].0 == br) || (exists|k: int| 0 <= k < j && #[trigger] sb[k].0 == br)) by {
                if r@.contains(br) {
                    let p = choose|p: int| 0 <= p < r@.len() && r@[p] == br;
                    if p < before.len() {
                        assert(before.contains(br));
                    }
                }
                if (exists|k: int| 0 <= k < i && #[trigger] sa[k].0 == br) || (exists|k: int| 0 <= k < j && #[trigger] sb[k].0 == br) {
                    if (exists|k: int| 0 <= k < i0 && #[trigger] sa[k].0 == br) || (exists|k: int| 0 <= k < j0 && #[trigger] sb[k].0 == br) {
                        assert(before.contains(br));
                        let p = choose|p: int| 0 <= p < before.len() && before[p] == br;
                        assert(r@[p] == br);
                    } else {
                        assert(r@[before.len() as int] == x);
                        if exists|k: int| 0 <= k < i && #[trigger] sa[k].0 == br {
                            let k = choose|k: int| 0 <= k < i && #[trigger] sa[k].0 == br;
                            assert(k == i0);
                        } else {
                            let k = choose|k: int| 0 <= k < j && #[trigger] sb[k].0 == br;
                            assert(k == j0);
                        }
                    }
                }
            }
        }
    }
    proof {
        assert forall|br: BlockRef| r@.contains(br) <==> (a.blocks_view().contains_key(br) || b.blocks_view().contains_key(br)) by {
            if a.blocks_view().contains_key(br) {
                let k = crate::f06file::bref_pos(sa, br);
                assert(exists|k2: int| 0 <= k2 < i && #[trigger] sa[k2].0 == br);
            }
            if b.blocks_view().contains_key(br) {
                let k = crate::f06file::bref_pos(sb, br);
                assert(exists|k2: int| 0 <= k2 < j && #[trigger] sb[k2].0 == br);
            }
            if exists|k: int| 0 <= k < i && #[trigger] sa[k].0 == br {
                let k = choose|k: int| 0 <= k < i && #[trigger] sa[k].0 == br;
                assert(has_bref(sa, br));
            }
            if exists|k: int| 0 <= k < j && #[trigger] sb[k].0 == br {
                let k = choose|k: int| 0 <= k < j && #[trigger] sb[k].0 == br;
                assert(has_bref(sb, br));
            }
        }
    }
    r
}


/// Does either file have blocks for the reference?
pub open spec fn has_ref(a: F06File, b: F06File, br: BlockRef) -> bool {
    a.blocks_view().contains_key(br) || b.blocks_view().contains_key(br)
}

/// Adding a reference after all others keeps a list in order.
proof fn lemma_refs_push(ks: Seq<BlockRef>, x: BlockRef)
    requires
        refs_sorted(ks),
        forall|p: int| 0 <= p < ks.len() ==> bref_lt(#[trigger] ks[p], x),
    ensures
        refs_sorted(ks.push(x)),
{
    assert forall|p: int, q: int| 0 <= p < q < ks.push(x).len() implies bref_lt(#[trigger] ks.push(x)[p], #[trigger] ks.push(x)[q]) by {
        if q == ks.len() {
            assert(ks.push(x)[p] == ks[p]);
        } else {
            assert(ks.push(x)[p] == ks[p] && ks.push(x)[q] == ks[q]);
        }
    }
}

/// What a reference gives: the reason it is not compared, or what
/// comparing its blocks gives.
fn classify_ref(dxn: DisjunctionBehaviour, a: &F06File, b: &F06File, br: BlockRef) -> (r: (
    Option<NonCompareReason>,
    Option<Vec<PositionPair>>,
))
    requires
        a.wf(),
        b.wf(),
        has_ref(*a, *b, br),
    ensures
        ({
            let rf = ref_reason(*a, *b, br);
            &&& match r.0 {
                Some(x) => rf == Some(reason_view(x)),
                None => rf is None,
            }
            &&& r.0 is Some ==> r.1 is None
            &&& rf is None ==> r.1 is Some
            &&& r.1 matches Some(v) ==> positions_listed(a.blocks_view()[br][0], b.blocks_view()[br][0], dxn, v@)
        }),
{
    let va = blocks_for(a, br);
    let vb = blocks_for(b, br);
    let na: usize = match va {
        Some(v) => v.len(),
        None => 0,
    };
    let nb: usize = match vb {
        Some(v) => v.len(),
        None => 0,
    };
    assert(count_for(*a, br) == na && count_for(*b, br) == nb);
    if na == 0 && nb == 1 {
        (Some(NonCompareReason::NoCounterpart(copy_name(&a.filename))), None)
    } else if na == 1 && nb == 0 {
        (Some(NonCompareReason::NoCounterpart(copy_name(&b.filename))), None)
    } else if na == 1 && nb == 1 {
        let ba = &va.unwrap()[0];
        let bb = &vb.unwrap()[0];
        proof {
            let pa = crate::f06file::bref_pos(a.blocks@, br);
            let pb = crate::f06file::bref_pos(b.blocks@, br);
            lemma_bref_unique(a.blocks@, pa);
            lemma_bref_unique(b.blocks@, pb);
            assert(a.blocks@[pa].1@[0].wf());
            assert(b.blocks@[pb].1@[0].wf());
        }
        match diff_positions(ba, bb, dxn) {
            Ok(v) => (None, Some(v)),
            Err(c) => (Some(NonCompareReason::NotCompatible(c)), None),
        }
    } else if nb == 1 {
        (Some(NonCompareReason::NotUniqueInOne(copy_name(&a.filename))), None)
    } else if na == 1 {
        (Some(NonCompareReason::NotUniqueInOne(copy_name(&b.filename))), None)
    } else {
        (Some(NonCompareReason::NotUniqueInBoth), None)
    }
}

/// The references of the entries of a comparison list.
pub open spec fn compared_refs(s: Seq<(BlockRef, Vec<PositionPair>)>) -> Seq<BlockRef> {
    s.map_values(|e: (BlockRef, Vec<PositionPair>)| e.0)
}

/// The references of the entries of a list of reasons.
pub open spec fn reason_refs(s: Seq<(BlockRef, NonCompareReason)>) -> Seq<BlockRef> {
    s.map_values(|e: (BlockRef, NonCompareReason)| e.0)
}

/// What a reference is given in a diff.
pub open spec fn ref_handled(a: F06File, b: F06File, dxn: DisjunctionBehaviour, d: F06Diff, br: BlockRef) -> bool {
    let rf = ref_reason(a, b, br);
    ||| rf is Some && reason_refs(d.not_compared@).contains(br)
    ||| rf is None && compared_refs(d.compared@).contains(br)
}

/// The entries of a diff are right, each for its reference.
pub open spec fn entries_right(a: F06File, b: F06File, dxn: DisjunctionBehaviour, d: F06Diff) -> bool {
    &&& forall|k: int|
        0 <= k < d.compared@.len() ==> {
            let br = (#[trigger] d.compared@[k]).0;
            &&& has_ref(a, b, br)
            &&& count_for(a, br) == 1 && count_for(b, br) == 1
            &&& comparable(a.blocks_view()[br][0], b.blocks_view()[br][0])
            &&& positions_listed(a.blocks_view()[br][0], b.blocks_view()[br][0], dxn, d.compared@[k].1@)
        }
    &&& forall|k: int|
        0 <= k < d.not_compared@.len() ==> {
            let br = (#[trigger] d.not_compared@[k]).0;
            &&& has_ref(a, b, br)
            &&& ref_reason(a, b, br) == Some(
                reason_view(d.not_compared@[k].1),
            )
        }
}

impl F06Diff {
    /// Diffs two files: for each block reference of either, compares the
    /// blocks when each file has exactly one, or tells why not.
    pub fn compare(dxn: DisjunctionBehaviour, a: &F06File, b: &F06File) -> (r: F06Diff)
        requires
            a.wf(),
            b.wf(),
        ensures
            refs_sorted(compared_refs(r.compared@)),
            refs_sorted(reason_refs(r.not_compared@)),
            entries_right(*a, *b, dxn, r),
            forall|br: BlockRef| #[trigger] has_ref(*a, *b, br) ==> ref_handled(*a, *b, dxn, r, br),
    {
        let brs = union_refs(a, b);
        let mut d = F06Diff { compared: Vec::new(), not_compared: Vec::new() };
        let mut i: usize = 0;
        while i < brs.len()
            invariant
                a.wf(),
                b.wf(),
                refs_sorted(brs@),
                forall|br: BlockRef| brs@.contains(br) <==> has_ref(*a, *b, br),
                i <= brs@.len(),
                forall|k: int| 0 <= k < compared_refs(d.compared@).len() ==> exists|q: int| 0 <= q < i && brs@[q] == #[trigger] compared_refs(d.compared@)[k],
                forall|k: int| 0 <= k < reason_refs(d.not_compared@).len() ==> exists|q: int| 0 <= q < i && brs@[q] == #[trigger] reason_refs(d.not_compared@)[k],
                refs_sorted(compared_refs(d.compared@)),
                refs_sorted(reason_refs(d.not_compared@)),
                entries_right(*a, *b, dxn, d),
                forall|q: int| 0 <= q < i ==> ref_handled(*a, *b, dxn, d, #[trigger] brs@[q]),
            decreases brs.len() - i,
        {
            let br = brs[i];
            proof {
                assert(brs@.contains(br));
            }
            let ghost d0 = d;
            proof {
                assert forall|k: int| 0 <= k < compared_refs(d0.compared@).len() implies exists|q: int| 0 <= q < i && brs@[q] == #[trigger] compared_refs(d0.compared@)[k] by {
                    assert(compared_refs(d.compared@)[k] == compared_refs(d0.compared@)[k]);
                    let q = choose|q: int| 0 <= q < i && brs@[q] == compared_refs(d.compared@)[k];
                }
                assert forall|k: int| 0 <= k < reason_refs(d0.not_compared@).len() implies exists|q: int| 0 <= q < i && brs@[q] == #[trigger] reason_refs(d0.not_compared@)[k] by {
                    assert(reason_refs(d.not_compared@)[k] == reason_refs(d0.not_compared@)[k]);
                    let q = choose|q: int| 0 <= q < i && brs@[q] == reason_refs(d.not_compared@)[k];
                }
            }
            let (reason, positions) = classify_ref(dxn, a, b, br);
            proof {
                assert forall|p: int| 0 <= p < compared_refs(d0.compared@).len() implies bref_lt(#[trigger] compared_refs(d0.compared@)[p], br) by {
                    let q = choose|q: int| 0 <= q < i && brs@[q] == compared_refs(d0.compared@)[p];
                }
                assert forall|p: int| 0 <= p < reason_refs(d0.not_compared@).len() implies bref_lt(#[trigger] reason_refs(d0.not_compared@)[p], br) by {
                    let q = choose|q: int| 0 <= q < i && brs@[q] == reason_refs(d0.not_compared@)[p];
                }
            }
            match positions {
                Some(v) => {
                    d.compared.push((br, v));
                    proof {
                        assert(compared_refs(d.compared@) =~= compared_refs(d0.compared@).push(br));
                        lemma_refs_push(compared_refs(d0.compared@), br);
                    }
                },
                None => {},
            }
            match reason {
                Some(rs) => {
                    d.not_compared.push((br, rs));
                    proof {
                        assert(reason_refs(d.not_compared@) =~= reason_refs(d0.not_compared@).push(br));
                        lemma_refs_push(reason_refs(d0.not_compared@), br);
                    }
                },
                None => {},
            }
            proof {
                lemma_step(*a, *b, dxn, d0, d, brs@, i as int);
                assert forall|k: int| 0 <= k < compared_refs(d.compared@).len() implies exists|q: int| 0 <= q < i + 1 && brs@[q] == #[trigger] compared_refs(d.compared@)[k] by {
                    if k < d0.compared@.len() {
                        assert(compared_refs(d.compared@)[k] == compared_refs(d0.compared@)[k]);
                        let q = choose|q: int| 0 <= q < i && brs@[q] == compared_refs(d0.compared@)[k];
                    } else {
                        assert(compared_refs(d.compared@)[k] == br);
                    }
                }
                assert forall|k: int| 0 <= k < reason_refs(d.not_compared@).len() implies exists|q: int| 0 <= q < i + 1 && brs@[q] == #[trigger] reason_refs(d.not_compared@)[k] by {
                    if k < d0.not_compared@.len() {
                        assert(reason_refs(d.not_compared@)[k] == reason_refs(d0.not_compared@)[k]);
                        let q = choose|q: int| 0 <= q < i && brs@[q] == reason_refs(d0.not_compared@)[k];
                    } else {
                        assert(reason_refs(d.not_compared@)[k] == br);
                    }
                }
            }
            i = i + 1;
        }
        proof {
            assert forall|br: BlockRef| #[trigger] has_ref(*a, *b, br) implies ref_handled(*a, *b, dxn, d, br) by {
                assert(brs@.contains(br));
                let q = choose|q: int| 0 <= q < brs@.len() && brs@[q] == br;
            }
        }
        d
    }
}

/// One step of diffing keeps the entries right and handles the reference.
proof fn lemma_step(a: F06File, b: F06File, dxn: DisjunctionBehaviour, d0: F06Diff, d: F06Diff, brs: Seq<BlockRef>, i: int)
    requires
        0 <= i < brs.len(),
        has_ref(a, b, brs[i]),
        entries_right(a, b, dxn, d0),
        forall|q: int| 0 <= q < i ==> ref_handled(a, b, dxn, d0, #[trigger] brs[q]),
        ({
            let br = brs[i];
            let rf = ref_reason(a, b, br);
            &&& (d.compared@ == d0.compared@ || exists|v: Vec<PositionPair>|
                d.compared@ == d0.compared@.push((br, v)) && rf is None
                    && positions_listed(a.blocks_view()[br][0], b.blocks_view()[br][0], dxn, v@))
            &&& (d.not_compared@ == d0.not_compared@ || exists|x: NonCompareReason|
                d.not_compared@ == d0.not_compared@.push((br, x)) && rf == Some(reason_view(x)))
            &&& rf is Some ==> d.not_compared@ != d0.not_compared@
            &&& rf is None ==> d.compared@ != d0.compared@
        }),
    ensures
        entries_right(a, b, dxn, d),
        forall|q: int| 0 <= q < i + 1 ==> ref_handled(a, b, dxn, d, #[trigger] brs[q]),
{
    let br = brs[i];
    assert forall|k: int| 0 <= k < d.compared@.len() implies {
        let b2 = (#[trigger] d.compared@[k]).0;
        &&& has_ref(a, b, b2)
        &&& count_for(a, b2) == 1 && count_for(b, b2) == 1
        &&& comparable(a.blocks_view()[b2][0], b.blocks_view()[b2][0])
        &&& positions_listed(a.blocks_view()[b2][0], b.blocks_view()[b2][0], dxn, d.compared@[k].1@)
    } by {
        if k < d0.compared@.len() {
            assert(d.compared@[k] == d0.compared@[k]);
        }
    }
    assert forall|k: int| 0 <= k < d.not_compared@.len() implies {
        let b2 = (#[trigger] d.not_compared@[k]).0;
        &&& has_ref(a, b, b2)
        &&& ref_reason(a, b, b2) == Some(
            reason_view(d.not_compared@[k].1),
        )
    } by {
        if k < d0.not_compared@.len() {
            assert(d.not_compared@[k] == d0.not_compared@[k]);
        }
    }
    assert forall|q: int| 0 <= q < i + 1 implies ref_handled(a, b, dxn, d, #[trigger] brs[q]) by {
        let b2 = brs[q];
        if q < i {
            assert(ref_handled(a, b, dxn, d0, b2));
            if reason_refs(d0.not_compared@).contains(b2) {
                let k = choose|k: int| 0 <= k < reason_refs(d0.not_compared@).len() && reason_refs(d0.not_compared@)[k] == b2;
                assert(reason_refs(d.not_compared@)[k] == b2);
            }
            if compared_refs(d0.compared@).contains(b2) {
                let k = choose|k: int| 0 <= k < compared_refs(d0.compared@).len() && compared_refs(d0.compared@)[k] == b2;
                assert(compared_refs(d.compared@)[k] == b2);
            }
        } else {
            if d.not_compared@ != d0.not_compared@ {
                assert(reason_refs(d.not_compared@)[d0.not_compared@.len() as int] == br);
            }
            if d.compared@ != d0.compared@ {
                assert(compared_refs(d.compared@)[d0.compared@.len() as int] == br);
            }
        }
    }
}

} // verus!

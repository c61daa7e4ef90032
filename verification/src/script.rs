//! What a comparison of an extraction script checks: the data indexes that
//! its extractions give in either file, and the values compared there.

use vstd::prelude::*;

use crate::extraction::{DatumIndex, Extraction, datum_of, lookup_of};
use crate::f06file::{F06File, listed_blocks};
use crate::numbers::{F06Number, NumberView, RealText};

verus! {

/// The data indexes that some extractions give in either of two files.
pub open spec fn script_indices(exs: Seq<Extraction>, r: F06File, t: F06File) -> Set<DatumIndex>
    decreases exs.len(),
{
    if exs.len() == 0 {
        Set::empty()
    } else {
        let e = exs.last();
        script_indices(exs.drop_last(), r, t) + lookup_of(e, listed_blocks(r.blocks@, true)).to_set() + lookup_of(
            e,
            listed_blocks(t.blocks@, true),
        ).to_set()
    }
}

/// Appends the indexes of `more` that `acc` does not hold yet.
fn add_new(acc: &mut Vec<DatumIndex>, more: &Vec<DatumIndex>)
    requires
        old(acc)@.no_duplicates(),
    ensures
        final(acc)@.no_duplicates(),
        final(acc)@.to_set() == old(acc)@.to_set() + more@.to_set(),
{
    let mut i: usize = 0;
    while i < more.len()
        invariant
            i <= more@.len(),
            acc@.no_duplicates(),
            acc@.to_set() == old(acc)@.to_set() + more@.take(i as int).to_set(),
        decreases more@.len() - i,
    {
        let x = more[i];
        let mut found = false;
        let mut j: usize = 0;
        while j < acc.len()
            invariant
                j <= acc@.len(),
                found == exists|k: int| 0 <= k < j && acc@[k] == x,
            decreases acc@.len() - j,
        {
            if acc[j] == x {
                found = true;
            }
            j = j + 1;
        }
        let ghost before = acc@;
        if !found {
            acc.push(x);
            assert(acc@.to_set() =~= before.to_set().insert(x)) by {
                assert forall|y: DatumIndex| acc@.to_set().contains(y) <==> before.to_set().insert(x).contains(y) by {
                    if acc@.contains(y) && y != x {
                        let k = choose|k: int| 0 <= k < acc@.len() && acc@[k] == y;
                        assert(before[k] == y);
                    }
                    if before.contains(y) {
                        let k = choose|k: int| 0 <= k < before.len() && before[k] == y;
                        assert(acc@[k] == y);
                    }
                    if y == x {
                        assert(acc@[before.len() as int] == x);
                    }
                }
            }
        } else {
            assert(before.contains(x));
            assert(before.to_set().insert(x) =~= before.to_set());
        }
        assert(more@.take(i + 1) =~= more@.take(i as int).push(x));
        assert(more@.take(i + 1).to_set() =~= more@.take(i as int).to_set().insert(x)) by {
            assert forall|y: DatumIndex| more@.take(i + 1).to_set().contains(y) <==> more@.take(i as int).to_set().insert(x).contains(y) by {
                let s = more@.take(i + 1);
                let p = more@.take(i as int);
                if s.contains(y) && y != x {
                    let k = choose|k: int| 0 <= k < s.len() && s[k] == y;
                    assert(p[k] == y);
                }
                if p.contains(y) {
                    let k = choose|k: int| 0 <= k < p.len() && p[k] == y;
                    assert(s[k] == y);
                }
                if y == x {
                    assert(s[i as int] == x);
                }
            }
        }
        i = i + 1;
    }
    assert(more@.take(more@.len() as int) =~= more@);
}

/// Lists, with no repetition, the data indexes that some extractions give
/// in either of two files (a reference file and a file under test).
pub fn checked_indices(exs: &Vec<Extraction>, reference: &F06File, test: &F06File) -> (r: Vec<DatumIndex>)
    requires
        reference.wf(),
        test.wf(),
    ensures
        r@.no_duplicates(),
        r@.to_set() == script_indices(exs@, *reference, *test),
{
    let mut r: Vec<DatumIndex> = Vec::new();
    let mut i: usize = 0;
    assert(r@.to_set() =~= Set::<DatumIndex>::empty());
    while i < exs.len()
        invariant
            reference.wf(),
            test.wf(),
            i <= exs@.len(),
            r@.no_duplicates(),
            r@.to_set() == script_indices(exs@.take(i as int), *reference, *test),
        decreases exs@.len() - i,
    {
        let in_ref = exs[i].lookup(reference);
        let in_test = exs[i].lookup(test);
        add_new(&mut r, &in_ref);
        add_new(&mut r, &in_test);
        proof {
            let s = exs@.take(i + 1);
            assert(s.drop_last() =~= exs@.take(i as int));
            assert(s.last() == exs@[i as int]);
        }
        i = i + 1;
    }
    assert(exs@.take(exs@.len() as int) =~= exs@);
    r
}

/// The value at a data index of a file, or a real zero where there is none.
pub fn value_or_zero(index: &DatumIndex, file: &F06File) -> (r: F06Number)
    requires
        file.wf(),
    ensures
        datum_of(*index, *file) matches Ok(v) ==> r@ == v,
        datum_of(*index, *file) is Err ==> r@ == NumberView::Real(seq!['0', '.', '0']),
{
    match index.get_from(file) {
        Ok(x) => x,
        Err(_) => F06Number::Real(RealText::zero()),
    }
}

} // verus!

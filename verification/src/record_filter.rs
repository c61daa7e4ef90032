//! Which CSV records, and which of their columns, get written.

use vstd::prelude::*;

use crate::elements::ElementType;
use crate::layout::{CsvBlockId, CsvRecord};

verus! {

/// A filter passes an optional value when the filter is empty, when there is
/// no value, or when the filter holds it.
pub open spec fn lax_pass<T>(v: Seq<T>, x: Option<T>) -> bool {
    v.len() == 0 || x is None || (x matches Some(k) && v.contains(k))
}

/// Does a list of naturals let an optional one through?
fn lax_usize(v: &Vec<usize>, x: Option<usize>) -> (r: bool)
    ensures
        r == lax_pass(v@, x),
{
    match x {
        None => true,
        Some(k) => {
            if v.len() == 0 {
                return true;
            }
            let mut i: usize = 0;
            while i < v.len()
                invariant
                    x == Some(k),
                    v@.len() > 0,
                    i <= v@.len(),
                    forall|j: int| 0 <= j < i ==> v@[j] != k,
                decreases v@.len() - i,
            {
                if v[i] == k {
                    assert(v@[i as int] == k);
                    return true;
                }
                i = i + 1;
            }
            false
        },
    }
}

/// Does a list of element types let an optional one through?
fn lax_etype(v: &Vec<ElementType>, x: Option<ElementType>) -> (r: bool)
    ensures
        r == lax_pass(v@, x),
{
    match x {
        None => true,
        Some(k) => {
            if v.len() == 0 {
                return true;
            }
            let mut i: usize = 0;
            while i < v.len()
                invariant
                    x == Some(k),
                    v@.len() > 0,
                    i <= v@.len(),
                    forall|j: int| 0 <= j < i ==> v@[j] != k,
                decreases v@.len() - i,
            {
                if v[i] == k {
                    assert(v@[i as int] == k);
                    return true;
                }
                i = i + 1;
            }
            false
        },
    }
}

/// Does a list of block IDs let one through?
fn lax_block(v: &Vec<CsvBlockId>, x: CsvBlockId) -> (r: bool)
    ensures
        r == lax_pass(v@, Some(x)),
{
    if v.len() == 0 {
        return true;
    }
    let mut i: usize = 0;
    while i < v.len()
        invariant
            i <= v@.len(),
            forall|j: int| 0 <= j < i ==> v@[j] != x,
        decreases v@.len() - i,
    {
        if v[i] == x {
            return true;
        }
        i = i + 1;
    }
    false
}

/// The filters on the records of a CSV file: an empty list lets everything
/// through, and a record without the value a filter looks at passes it.
pub struct RecordFilter {
    /// CSV blocks to write.
    pub csv_blocks: Vec<CsvBlockId>,
    /// Grid point IDs.
    pub gids: Vec<usize>,
    /// Element IDs.
    pub eids: Vec<usize>,
    /// Element types.
    pub etypes: Vec<ElementType>,
    /// Subcases.
    pub subcases: Vec<usize>,
    /// Columns to keep, numbered from 1 to 11.
    pub cols: Vec<usize>,
}

/// Does a record pass all the filters?
pub open spec fn record_passes(f: RecordFilter, r: CsvRecord) -> bool {
    &&& lax_pass(f.csv_blocks@, Some(r.block_id))
    &&& lax_pass(f.gids@, r.gid)
    &&& lax_pass(f.eids@, r.eid)
    &&& lax_pass(f.etypes@, r.etype)
    &&& lax_pass(f.subcases@, r.subcase)
}

/// Is the column at a position (counted from zero) kept?
pub open spec fn col_kept_at(cols: Seq<usize>, i: int) -> bool {
    cols.len() == 0 || cols.contains((i + 1) as usize)
}

/// The kept items of the first `n`, in order.
pub open spec fn kept_items<T>(cols: Seq<usize>, v: Seq<T>, n: int) -> Seq<T>
    decreases n,
{
    if n <= 0 {
        Seq::empty()
    } else {
        let r = kept_items(cols, v, n - 1);
        if col_kept_at(cols, n - 1) { r.push(v[n - 1]) } else { r }
    }
}

impl RecordFilter {
    /// Should a record be written?
    pub fn should_write(&self, r: &CsvRecord) -> (b: bool)
        ensures
            b == record_passes(*self, *r),
    {
        lax_block(&self.csv_blocks, r.block_id) && lax_usize(&self.gids, r.gid) && lax_usize(&self.eids, r.eid)
            && lax_etype(&self.etypes, r.etype) && lax_usize(&self.subcases, r.subcase)
    }

    /// Keeps the asked columns of a row, in order; all of them when no
    /// column is asked for.
    pub fn keep_cols<T>(&self, row: Vec<T>) -> (r: Vec<T>)
        requires
            row@.len() < usize::MAX,
        ensures
            r@ == kept_items(self.cols@, row@, row@.len() as int),
    {
        let ghost orig = row@;
        let n = row.len();
        let mut out: Vec<T> = Vec::new();
        let mut rest = row;
        let mut i: usize = 0;
        while i < n
            invariant
                n == orig.len(),
                n < usize::MAX,
                i <= n,
                rest@ == orig.skip(i as int),
                out@ == kept_items(self.cols@, orig, i as int),
            decreases n - i,
        {
            let x = rest.remove(0);
            assert(rest@ =~= orig.skip(i + 1));
            assert(x == orig[i as int]);
            let mut keep = self.cols.len() == 0;
            if !keep {
                let mut j: usize = 0;
                while j < self.cols.len()
                    invariant
                        j <= self.cols@.len(),
                        i < n < usize::MAX,
                        keep == exists|q: int| 0 <= q < j && self.cols@[q] == (i + 1) as usize,
                    decreases self.cols@.len() - j,
                {
                    if self.cols[j] == i + 1 {
                        keep = true;
                    }
                    j = j + 1;
                }
            }
            assert(keep == col_kept_at(self.cols@, i as int));
            if keep {
                out.push(x);
            }
            i = i + 1;
        }
        out
    }
}

} // verus!

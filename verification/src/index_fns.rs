//! Functions that extract CSV fields from row indexes.

use vstd::prelude::*;

use crate::elements::etype_name;
use crate::from_f06::ConversionError;
use crate::indexing::{ElementPoint, ElementRef, ForceOrigin, NasIndex, index_element};
use crate::layout::{CsvField, FieldView};

verus! {

/// The error for an index of the wrong kind.
fn bad_col_type<T>(index: NasIndex) -> (r: Result<T, ConversionError>)
    ensures
        r == Err::<T, ConversionError>(ConversionError::BadColIndexType(index)),
{
    Err(ConversionError::BadColIndexType(index))
}

/// The grid point ID that an index names: that of a grid point, of a corner
/// of an element (sided or not), or of a grid point a force acts on.
pub open spec fn index_gid(index: NasIndex) -> Option<usize> {
    match index {
        NasIndex::GridPointRef(g) => Some(g.gid),
        NasIndex::PointInElement(pie) => match pie.point {
            ElementPoint::Corner(g) => Some(g.gid),
            _ => None,
        },
        NasIndex::GridPointForceOrigin(gpfo) => Some(gpfo.grid_point.gid),
        NasIndex::ElementSidedPoint(esp) => match esp.point {
            ElementPoint::Corner(g) => Some(g.gid),
            _ => None,
        },
        _ => None,
    }
}

/// Attempts to extract a grid point ID from an index type.
pub fn ixfn_gid(index: NasIndex) -> (r: Result<CsvField, ConversionError>)
    ensures
        match index_gid(index) {
            Some(g) => r matches Ok(f) && f@ == FieldView::Natural(g as nat),
            None => r == Err::<CsvField, ConversionError>(ConversionError::BadColIndexType(index)),
        },
{
    let gid: usize = match index {
        NasIndex::GridPointRef(g) => g.gid,
        NasIndex::PointInElement(pie) => match pie.point {
            ElementPoint::Corner(g) => g.gid,
            _ => return bad_col_type(index),
        },
        NasIndex::GridPointForceOrigin(gpfo) => gpfo.grid_point.gid,
        NasIndex::ElementSidedPoint(esp) => match esp.point {
            ElementPoint::Corner(g) => g.gid,
            _ => return bad_col_type(index),
        },
        _ => return bad_col_type(index),
    };
    Ok(CsvField::Natural(gid))
}

/// Extracts the element reference from an index type.
fn util_eref(index: NasIndex) -> (r: Result<ElementRef, ConversionError>)
    ensures
        match index_element(index) {
            Some(e) => r == Ok::<ElementRef, ConversionError>(e),
            None => r == Err::<ElementRef, ConversionError>(ConversionError::BadColIndexType(index)),
        },
{
    match index {
        NasIndex::ElementRef(eref) => Ok(eref),
        NasIndex::PointInElement(pie) => Ok(pie.element),
        NasIndex::GridPointForceOrigin(gpfo) => match gpfo.force_origin {
            ForceOrigin::Element { elem } => Ok(elem),
            _ => bad_col_type(index),
        },
        NasIndex::ElementSidedPoint(esp) => Ok(esp.element),
        _ => bad_col_type(index),
    }
}

/// Attempts to extract an element ID from an index type.
pub fn ixfn_eid(index: NasIndex) -> (r: Result<CsvField, ConversionError>)
    ensures
        match index_element(index) {
            Some(e) => r matches Ok(f) && f@ == FieldView::Natural(e.eid as nat),
            None => r == Err::<CsvField, ConversionError>(ConversionError::BadColIndexType(index)),
        },
{
    match util_eref(index) {
        Ok(eref) => Ok(CsvField::Natural(eref.eid)),
        Err(e) => Err(e),
    }
}

/// The field for an element type that may be unknown.
pub open spec fn etype_field(e: ElementRef) -> FieldView {
    match e.etype {
        Some(et) => FieldView::ElementType(et),
        None => FieldView::Text("<UNKNOWN>"@),
    }
}

/// Attempts to extract an element type from an index type; an element of
/// unknown type gives the text `<UNKNOWN>`.
pub fn ixfn_etype(index: NasIndex) -> (r: Result<CsvField, ConversionError>)
    ensures
        match index_element(index) {
            Some(e) => r matches Ok(f) && f@ == etype_field(e),
            None => r == Err::<CsvField, ConversionError>(ConversionError::BadColIndexType(index)),
        },
{
    let eref = match util_eref(index) {
        Ok(eref) => eref,
        Err(e) => return Err(e),
    };
    match eref.etype {
        Some(etype) => Ok(CsvField::ElementType(etype)),
        None => Ok(CsvField::String("<UNKNOWN>".to_owned())),
    }
}

/// The short text of a force origin.
pub open spec fn force_origin_text(fo: ForceOrigin) -> Seq<char> {
    match fo {
        ForceOrigin::Load => "APPLIED"@,
        ForceOrigin::Element { elem } => match elem.etype {
            Some(et) => etype_name(et),
            None => "<ELEM>"@,
        },
        ForceOrigin::SinglePointConstraint => "SPC"@,
        ForceOrigin::MultiPointConstraint => "MPC"@,
    }
}

/// Extracts a force origin into a shorter string.
pub fn ixfn_fo(index: NasIndex) -> (r: Result<CsvField, ConversionError>)
    ensures
        match index {
            NasIndex::GridPointForceOrigin(gpfo) => r matches Ok(f) && f@ == FieldView::Text(
                force_origin_text(gpfo.force_origin),
            ),
            _ => r == Err::<CsvField, ConversionError>(ConversionError::BadColIndexType(index)),
        },
{
    if let NasIndex::GridPointForceOrigin(gpfo) = index {
        let s: String = match gpfo.force_origin {
            ForceOrigin::Load => "APPLIED".to_owned(),
            ForceOrigin::Element { elem } => match elem.etype {
                Some(et) => et.name().to_owned(),
                None => "<ELEM>".to_owned(),
            },
            ForceOrigin::SinglePointConstraint => "SPC".to_owned(),
            ForceOrigin::MultiPointConstraint => "MPC".to_owned(),
        };
        Ok(CsvField::String(s))
    } else {
        Err(ConversionError::BadColIndexType(index))
    }
}

/// The functions of a row index that a column generator can call.
#[derive(Copy, Clone, Debug, PartialEq, Eq, Structural)]
pub enum IndexFn {
    /// `ixfn_gid`.
    Gid,
    /// `ixfn_eid`.
    Eid,
    /// `ixfn_etype`.
    Etype,
    /// `ixfn_fo`.
    Fo,
}

/// What an index function gives for an index.
pub open spec fn index_fn_result(f: IndexFn, index: NasIndex) -> Result<FieldView, ConversionError> {
    let bad = Err(ConversionError::BadColIndexType(index));
    match f {
        IndexFn::Gid => match index_gid(index) {
            Some(g) => Ok(FieldView::Natural(g as nat)),
            None => bad,
        },
        IndexFn::Eid => match index_element(index) {
            Some(e) => Ok(FieldView::Natural(e.eid as nat)),
            None => bad,
        },
        IndexFn::Etype => match index_element(index) {
            Some(e) => Ok(etype_field(e)),
            None => bad,
        },
        IndexFn::Fo => match index {
            NasIndex::GridPointForceOrigin(gpfo) => Ok(FieldView::Text(force_origin_text(gpfo.force_origin))),
            _ => bad,
        },
    }
}

/// The views of a result that holds a field.
pub open spec fn result_view(r: Result<CsvField, ConversionError>) -> Result<FieldView, ConversionError> {
    match r {
        Ok(f) => Ok(f@),
        Err(e) => Err(e),
    }
}

impl IndexFn {
    /// Calls the function on a row index.
    pub fn call(&self, index: NasIndex) -> (r: Result<CsvField, ConversionError>)
        ensures
            result_view(r) == index_fn_result(*self, index),
    {
        match self {
            IndexFn::Gid => ixfn_gid(index),
            IndexFn::Eid => ixfn_eid(index),
            IndexFn::Etype => ixfn_etype(index),
            IndexFn::Fo => ixfn_fo(index),
        }
    }
}

} // verus!

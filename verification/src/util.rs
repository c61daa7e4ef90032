//! Line-level helpers: breaking a line down into typed fields, picking
//! fields out of it, and detecting block headers written in spaced capitals.

use vstd::prelude::*;

use crate::elements::{all_etypes, etype_name, ElementType};
use crate::numbers::{is_real, is_real_token, parse_isize, parse_isize_token, RealText};
use crate::text::{chars_of, contains_str, seq_contains, split_words, views, words};

verus! {

/// A field of a line, as decoded.
#[derive(Clone, Debug)]
pub enum LineField {
    /// The field parses as an integer.
    Integer(isize),
    /// The field parses as a real.
    Real(RealText),
    /// The field is a single (one-byte) character.
    Character(char),
    /// The field holds an element type name.
    ElementType(ElementType),
    /// None of the above.
    NoIdea(Vec<char>),
}

/// The view of a line field.
pub ghost enum FieldView {
    /// An integer.
    Integer(isize),
    /// A real, by its text.
    Real(Seq<char>),
    /// A single character.
    Character(char),
    /// An element type.
    ElementType(ElementType),
    /// Anything else, by its text.
    NoIdea(Seq<char>),
}

impl View for LineField {
    type V = FieldView;

    open spec fn view(&self) -> FieldView {
        match self {
            LineField::Integer(i) => FieldView::Integer(*i),
            LineField::Real(r) => FieldView::Real(r@),
            LineField::Character(c) => FieldView::Character(*c),
            LineField::ElementType(e) => FieldView::ElementType(*e),
            LineField::NoIdea(s) => FieldView::NoIdea(s@),
        }
    }
}

/// The first element type, from position `i` of `all_etypes` on, whose name
/// occurs in the token.
pub open spec fn etype_in_from(t: Seq<char>, i: int) -> Option<ElementType>
    decreases all_etypes().len() - i,
{
    if i < 0 || i >= all_etypes().len() {
        None
    } else if seq_contains(t, etype_name(all_etypes()[i])) {
        Some(all_etypes()[i])
    } else {
        etype_in_from(t, i + 1)
    }
}

/// The first element type (in canonical order) whose name occurs in the
/// token.
pub open spec fn etype_in(t: Seq<char>) -> Option<ElementType> {
    etype_in_from(t, 0)
}

/// How a single token is decoded: an integer if it parses as one, else a
/// real if it parses as one, else a character if it is one single-byte
/// character, else an element type if it holds the name of one, else
/// unknown.
pub open spec fn classify(t: Seq<char>) -> FieldView {
    match parse_isize(t) {
        Some(i) => FieldView::Integer(i),
        None => if is_real_token(t) {
            FieldView::Real(t)
        } else if t.len() == 1 && (t[0] as u32) < 128 {
            FieldView::Character(t[0])
        } else {
            match etype_in(t) {
                Some(e) => FieldView::ElementType(e),
                None => FieldView::NoIdea(t),
            }
        },
    }
}

/// The fields of a line: its words, each decoded.
pub open spec fn line_fields(line: Seq<char>) -> Seq<FieldView> {
    words(line).map_values(|w: Seq<char>| classify(w))
}

/// The views of a sequence of fields.
pub open spec fn field_views(fs: Seq<LineField>) -> Seq<FieldView> {
    fs.map_values(|f: LineField| f@)
}

/// Finds the first element type whose name occurs in the token.
pub fn find_etype_in(t: &Vec<char>) -> (r: Option<ElementType>)
    ensures
        r == etype_in(t@),
{
    let all = ElementType::all();
    let mut i: usize = 0;
    while i < all.len()
        invariant
            all@ == all_etypes(),
            i <= all.len(),
            etype_in(t@) == etype_in_from(t@, i as int),
        decreases all.len() - i,
    {
        if contains_str(t, all[i].name()) {
            return Some(all[i]);
        }
        i = i + 1;
    }
    None
}

/// Decodes a single token.
pub fn parse_field(t: Vec<char>) -> (r: LineField)
    ensures
        r@ == classify(t@),
{
    if let Some(i) = parse_isize_token(&t) {
        return LineField::Integer(i);
    }
    if is_real(t.as_slice()) {
        return LineField::Real(RealText { text: t });
    }
    if t.len() == 1 && (t[0] as u32) < 128 {
        return LineField::Character(t[0]);
    }
    match find_etype_in(&t) {
        Some(e) => LineField::ElementType(e),
        None => LineField::NoIdea(t),
    }
}

/// Breaks down a line into its fields.
pub fn line_breakdown(line: &Vec<char>) -> (r: Vec<LineField>)
    ensures
        field_views(r@) == line_fields(line@),
{
    let ws = split_words(line);
    let ghost w = words(line@);
    let mut r: Vec<LineField> = Vec::new();
    let mut i: usize = 0;
    while i < ws.len()
        invariant
            views(ws@) == w,
            w == words(line@),
            i <= ws@.len(),
            field_views(r@) == w.take(i as int).map_values(|x: Seq<char>| classify(x)),
        decreases ws.len() - i,
    {
        let t = crate::text::copy_chars(&ws[i]);
        assert(t@ == w[i as int]);
        let f = parse_field(t);
        let ghost before = field_views(r@);
        r.push(f);
        assert(field_views(r@) =~= before.push(classify(w[i as int])));
        assert(w.take(i + 1).map_values(|x: Seq<char>| classify(x)) =~= w.take(i as int).map_values(
            |x: Seq<char>| classify(x),
        ).push(classify(w[i as int])));
        i = i + 1;
    }
    assert(w.take(i as int) =~= w);
    r
}

/// Breaks down a line of text into its fields.
pub fn line_breakdown_str(line: &str) -> (r: Vec<LineField>)
    ensures
        field_views(r@) == line_fields(line@),
{
    let cs = chars_of(line);
    line_breakdown(&cs)
}

/// The integers among some fields, in order.
pub open spec fn field_ints(fs: Seq<FieldView>) -> Seq<isize>
    decreases fs.len(),
{
    if fs.len() == 0 {
        seq![]
    } else {
        let r = field_ints(fs.drop_last());
        match fs.last() {
            FieldView::Integer(i) => r.push(i),
            _ => r,
        }
    }
}

/// The non-negative integers among some fields, as naturals, in order.
pub open spec fn field_naturals(fs: Seq<FieldView>) -> Seq<usize>
    decreases fs.len(),
{
    if fs.len() == 0 {
        seq![]
    } else {
        let r = field_naturals(fs.drop_last());
        match fs.last() {
            FieldView::Integer(i) => if i >= 0 { r.push(i as usize) } else { r },
            _ => r,
        }
    }
}

/// The texts of the real fields among some fields, in order.
pub open spec fn field_reals(fs: Seq<FieldView>) -> Seq<Seq<char>>
    decreases fs.len(),
{
    if fs.len() == 0 {
        seq![]
    } else {
        let r = field_reals(fs.drop_last());
        match fs.last() {
            FieldView::Real(x) => r.push(x),
            _ => r,
        }
    }
}

/// The texts of the unknown fields among some fields, in order.
pub open spec fn field_strings(fs: Seq<FieldView>) -> Seq<Seq<char>>
    decreases fs.len(),
{
    if fs.len() == 0 {
        seq![]
    } else {
        let r = field_strings(fs.drop_last());
        match fs.last() {
            FieldView::NoIdea(x) => r.push(x),
            _ => r,
        }
    }
}

/// The element types among some fields, in order.
pub open spec fn field_etypes(fs: Seq<FieldView>) -> Seq<ElementType>
    decreases fs.len(),
{
    if fs.len() == 0 {
        seq![]
    } else {
        let r = field_etypes(fs.drop_last());
        match fs.last() {
            FieldView::ElementType(e) => r.push(e),
            _ => r,
        }
    }
}

/// The `n`-th element of a sequence, if there is one.
pub open spec fn nth<A>(s: Seq<A>, n: int) -> Option<A> {
    if 0 <= n < s.len() { Some(s[n]) } else { None }
}

/// The last element of a sequence, if there is one.
pub open spec fn last_of<A>(s: Seq<A>) -> Option<A> {
    if s.len() > 0 { Some(s.last()) } else { None }
}

/// All the integers among some fields.
pub fn ints_in(fs: &Vec<LineField>) -> (r: Vec<isize>)
    ensures
        r@ == field_ints(field_views(fs@)),
{
    let mut r: Vec<isize> = Vec::new();
    let mut i: usize = 0;
    while i < fs.len()
        invariant
            i <= fs@.len(),
            r@ == field_ints(field_views(fs@).take(i as int)),
        decreases fs.len() - i,
    {
        assert(field_views(fs@).take(i + 1).drop_last() =~= field_views(fs@).take(i as int));
        if let LineField::Integer(x) = fs[i] {
            r.push(x);
        }
        i = i + 1;
    }
    assert(field_views(fs@).take(i as int) =~= field_views(fs@));
    r
}

/// All the non-negative integers among some fields, as naturals.
pub fn naturals_in(fs: &Vec<LineField>) -> (r: Vec<usize>)
    ensures
        r@ == field_naturals(field_views(fs@)),
{
    let mut r: Vec<usize> = Vec::new();
    let mut i: usize = 0;
    while i < fs.len()
        invariant
            i <= fs@.len(),
            r@ == field_naturals(field_views(fs@).take(i as int)),
        decreases fs.len() - i,
    {
        assert(field_views(fs@).take(i + 1).drop_last() =~= field_views(fs@).take(i as int));
        if let LineField::Integer(x) = fs[i] {
            if x >= 0 {
                r.push(x as usize);
            }
        }
        i = i + 1;
    }
    assert(field_views(fs@).take(i as int) =~= field_views(fs@));
    r
}

/// All the reals among some fields.
pub fn reals_in(fs: &Vec<LineField>) -> (r: Vec<RealText>)
    ensures
        r@.map_values(|x: RealText| x@) == field_reals(field_views(fs@)),
{
    let mut r: Vec<RealText> = Vec::new();
    let mut i: usize = 0;
    while i < fs.len()
        invariant
            i <= fs@.len(),
            r@.map_values(|x: RealText| x@) == field_reals(field_views(fs@).take(i as int)),
        decreases fs.len() - i,
    {
        assert(field_views(fs@).take(i + 1).drop_last() =~= field_views(fs@).take(i as int));
        let ghost before = r@.map_values(|x: RealText| x@);
        if let LineField::Real(x) = &fs[i] {
            r.push(x.copy());
            assert(r@.map_values(|x: RealText| x@) =~= before.push(x@));
        }
        i = i + 1;
    }
    assert(field_views(fs@).take(i as int) =~= field_views(fs@));
    r
}

/// All the unknown fields among some fields.
pub fn strings_in(fs: &Vec<LineField>) -> (r: Vec<Vec<char>>)
    ensures
        views(r@) == field_strings(field_views(fs@)),
{
    let mut r: Vec<Vec<char>> = Vec::new();
    let mut i: usize = 0;
    while i < fs.len()
        invariant
            i <= fs@.len(),
            views(r@) == field_strings(field_views(fs@).take(i as int)),
        decreases fs.len() - i,
    {
        assert(field_views(fs@).take(i + 1).drop_last() =~= field_views(fs@).take(i as int));
        let ghost before = views(r@);
        if let LineField::NoIdea(x) = &fs[i] {
            r.push(crate::text::copy_chars(x));
            assert(views(r@) =~= before.push(x@));
        }
        i = i + 1;
    }
    assert(field_views(fs@).take(i as int) =~= field_views(fs@));
    r
}

/// All the element types among some fields.
pub fn etypes_in(fs: &Vec<LineField>) -> (r: Vec<ElementType>)
    ensures
        r@ == field_etypes(field_views(fs@)),
{
    let mut r: Vec<ElementType> = Vec::new();
    let mut i: usize = 0;
    while i < fs.len()
        invariant
            i <= fs@.len(),
            r@ == field_etypes(field_views(fs@).take(i as int)),
        decreases fs.len() - i,
    {
        assert(field_views(fs@).take(i + 1).drop_last() =~= field_views(fs@).take(i as int));
        if let LineField::ElementType(x) = fs[i] {
            r.push(x);
        }
        i = i + 1;
    }
    assert(field_views(fs@).take(i as int) =~= field_views(fs@));
    r
}

/// Gets the n-th integer among a line's fields.
pub fn nth_integer(fs: &Vec<LineField>, n: usize) -> (r: Option<isize>)
    ensures
        r == nth(field_ints(field_views(fs@)), n as int),
{
    let v = ints_in(fs);
    if n < v.len() { Some(v[n]) } else { None }
}

/// Gets the n-th non-negative integer among a line's fields.
pub fn nth_natural(fs: &Vec<LineField>, n: usize) -> (r: Option<usize>)
    ensures
        r == nth(field_naturals(field_views(fs@)), n as int),
{
    let v = naturals_in(fs);
    if n < v.len() { Some(v[n]) } else { None }
}

/// Gets the n-th unknown field among a line's fields.
pub fn nth_string(fs: &Vec<LineField>, n: usize) -> (r: Option<Vec<char>>)
    ensures
        r is Some == (n < field_strings(field_views(fs@)).len()),
        r matches Some(s) ==> s@ == field_strings(field_views(fs@))[n as int],
{
    let v = strings_in(fs);
    if n < v.len() {
        Some(crate::text::copy_chars(&v[n]))
    } else {
        None
    }
}

/// Gets the n-th element type among a line's fields.
pub fn nth_etype(fs: &Vec<LineField>, n: usize) -> (r: Option<ElementType>)
    ensures
        r == nth(field_etypes(field_views(fs@)), n as int),
{
    let v = etypes_in(fs);
    if n < v.len() { Some(v[n]) } else { None }
}

/// Returns the last integer among a line's fields.
pub fn last_int(fs: &Vec<LineField>) -> (r: Option<isize>)
    ensures
        r == last_of(field_ints(field_views(fs@))),
{
    let v = ints_in(fs);
    if v.len() > 0 { Some(v[v.len() - 1]) } else { None }
}

/// Returns the last integer among a line's fields, if it is non-negative.
pub fn last_natural(fs: &Vec<LineField>) -> (r: Option<usize>)
    ensures
        r == (match last_of(field_ints(field_views(fs@))) {
            Some(i) => if i >= 0 { Some(i as usize) } else { None },
            None => None,
        }),
{
    match last_int(fs) {
        Some(i) => if i >= 0 { Some(i as usize) } else { None },
        None => None,
    }
}

/// Gets the reals of a line if it holds exactly `n` of them.
pub fn extract_reals(fs: &Vec<LineField>, n: usize) -> (r: Option<Vec<RealText>>)
    ensures
        r is Some == (field_reals(field_views(fs@)).len() == n),
        r matches Some(v) ==> v@.map_values(|x: RealText| x@) == field_reals(field_views(fs@)),
{
    let v = reals_in(fs);
    if v.len() == n { Some(v) } else { None }
}

/// Gets the first `n` reals of a line, if it holds at least that many.
pub fn lax_reals(fs: &Vec<LineField>, n: usize) -> (r: Option<Vec<RealText>>)
    ensures
        r is Some == (field_reals(field_views(fs@)).len() >= n),
        r matches Some(v) ==> v@.map_values(|x: RealText| x@) == field_reals(field_views(fs@)).take(n as int),
{
    let mut v = reals_in(fs);
    if v.len() >= n {
        let ghost all = v@.map_values(|x: RealText| x@);
        v.truncate(n);
        assert(v@.map_values(|x: RealText| x@) =~= all.take(n as int));
        Some(v)
    } else {
        None
    }
}


/// The reals of a group, by their text.
pub open spec fn real_texts(v: Seq<RealText>) -> Seq<Seq<char>> {
    v.map_values(|x: RealText| x@)
}

/// Reading integer-led groups of reals from left to right: the groups
/// already ended (by their integer, a later group with the same integer
/// replacing an earlier one), and the group being read, if any.
pub open spec fn pattern_scan(fs: Seq<FieldView>) -> (Map<usize, Seq<Seq<char>>>, Option<(usize, Seq<Seq<char>>)>)
    decreases fs.len(),
{
    if fs.len() == 0 {
        (Map::empty(), None)
    } else {
        let (m, cur) = pattern_scan(fs.drop_last());
        let flushed = match cur {
            Some((i, v)) => m.insert(i, v),
            None => m,
        };
        match fs.last() {
            FieldView::Integer(i) => (flushed, Some((i as usize, Seq::empty()))),
            FieldView::Real(x) => match cur {
                Some((i, v)) => (m, Some((i, v.push(x)))),
                None => (m, None),
            },
            _ => (flushed, None),
        }
    }
}

/// The groups made of an integer followed by reals in some fields, by
/// integer (taken as a natural); other fields end a group.
pub open spec fn int_pattern_map(fs: Seq<FieldView>) -> Map<usize, Seq<Seq<char>>> {
    let (m, cur) = pattern_scan(fs);
    match cur {
        Some((i, v)) => m.insert(i, v),
        None => m,
    }
}

/// The groups of a list, by integer.
pub open spec fn groups_map(s: Seq<(usize, Vec<RealText>)>) -> Map<usize, Seq<Seq<char>>> {
    Map::new(
        |k: usize| exists|i: int| 0 <= i < s.len() && #[trigger] s[i].0 == k,
        |k: usize| real_texts(s[choose|i: int| 0 <= i < s.len() && #[trigger] s[i].0 == k].1@),
    )
}

/// The integers of a list of groups are strictly increasing.
pub open spec fn groups_sorted(s: Seq<(usize, Vec<RealText>)>) -> bool {
    forall|i: int, j: int| 0 <= i < j < s.len() ==> #[trigger] s[i].0 < #[trigger] s[j].0
}

/// In a sorted list of groups, the group for an integer is the only one.
proof fn lemma_groups_unique(s: Seq<(usize, Vec<RealText>)>, i: int)
    requires
        groups_sorted(s),
        0 <= i < s.len(),
    ensures
        groups_map(s).contains_key(s[i].0),
        groups_map(s)[s[i].0] == real_texts(s[i].1@),
{
    let k = s[i].0;
    assert(exists|j: int| 0 <= j < s.len() && #[trigger] s[j].0 == k);
    let j = choose|j: int| 0 <= j < s.len() && #[trigger] s[j].0 == k;
    if j < i {
        assert(s[j].0 < s[i].0);
    } else if j > i {
        assert(s[i].0 < s[j].0);
    }
}

/// In a sorted list of groups, the group for an integer is the only one.
pub proof fn lemma_groups_unique_pub(s: Seq<(usize, Vec<RealText>)>, i: int)
    requires
        groups_sorted(s),
        0 <= i < s.len(),
    ensures
        groups_map(s).contains_key(s[i].0),
        groups_map(s)[s[i].0] == real_texts(s[i].1@),
{
    lemma_groups_unique(s, i);
}

/// Sets the group of an integer, keeping the list sorted.
fn group_insert(groups: &mut Vec<(usize, Vec<RealText>)>, k: usize, v: Vec<RealText>)
    requires
        groups_sorted(old(groups)@),
    ensures
        groups_sorted(final(groups)@),
        groups_map(final(groups)@) == groups_map(old(groups)@).insert(k, real_texts(v@)),
{
    let ghost s = groups@;
    let ghost vv = real_texts(v@);
    let mut p: usize = 0;
    while p < groups.len() && groups[p].0 < k
        invariant
            groups@ == s,
            p <= s.len(),
            forall|j: int| 0 <= j < p ==> s[j].0 < k,
        decreases groups.len() - p,
    {
        p = p + 1;
    }
    if p < groups.len() && groups[p].0 == k {
        groups.set(p, (k, v));
        proof {
            let t = groups@;
            assert forall|i: int, j: int| 0 <= i < j < t.len() implies #[trigger] t[i].0 < #[trigger] t[j].0 by {
                assert(t[i].0 == s[i].0 && t[j].0 == s[j].0);
            }
            assert forall|x: usize| #[trigger] groups_map(t).contains_key(x) == groups_map(s).insert(k, vv).contains_key(x) by {
                if groups_map(t).contains_key(x) {
                    let i = choose|i: int| 0 <= i < t.len() && #[trigger] t[i].0 == x;
                    assert(s[i].0 == x);
                }
                if groups_map(s).contains_key(x) {
                    let i = choose|i: int| 0 <= i < s.len() && #[trigger] s[i].0 == x;
                    assert(t[i].0 == x);
                }
                assert(t[p as int].0 == k);
            }
            assert forall|x: usize| #[trigger] groups_map(t).contains_key(x) implies groups_map(t)[x] == groups_map(s).insert(k, vv)[x] by {
                let i = choose|i: int| 0 <= i < t.len() && #[trigger] t[i].0 == x;
                lemma_groups_unique(t, i);
                if i != p {
                    lemma_groups_unique(s, i);
                }
            }
            assert(groups_map(t) =~= groups_map(s).insert(k, vv));
        }
    } else {
        groups.insert(p, (k, v));
        proof {
            let t = groups@;
            assert(t == s.insert(p as int, (k, v)));
            assert forall|i: int, j: int| 0 <= i < j < t.len() implies #[trigger] t[i].0 < #[trigger] t[j].0 by {
                if j < p {
                    assert(t[i] == s[i] && t[j] == s[j]);
                } else if j == p {
                    assert(t[i] == s[i]);
                } else if i < p {
                    assert(t[i] == s[i] && t[j] == s[j - 1]);
                    if p < s.len() {
                        assert(s[p as int].0 <= s[j - 1].0);
                    }
                } else if i == p {
                    assert(t[j] == s[j - 1]);
                    assert(s[p as int].0 <= s[j - 1].0);
                } else {
                    assert(t[i] == s[i - 1] && t[j] == s[j - 1]);
                }
            }
            assert forall|x: usize| #[trigger] groups_map(t).contains_key(x) == groups_map(s).insert(k, vv).contains_key(x) by {
                if groups_map(t).contains_key(x) {
                    let i = choose|i: int| 0 <= i < t.len() && #[trigger] t[i].0 == x;
                    if i < p {
                        assert(s[i].0 == x);
                    } else if i > p {
                        assert(s[i - 1].0 == x);
                    }
                }
                if groups_map(s).contains_key(x) {
                    let i = choose|i: int| 0 <= i < s.len() && #[trigger] s[i].0 == x;
                    if i < p {
                        assert(t[i].0 == x);
                    } else {
                        assert(t[i + 1].0 == x);
                    }
                }
                assert(t[p as int].0 == k);
            }
            assert forall|x: usize| #[trigger] groups_map(t).contains_key(x) implies groups_map(t)[x] == groups_map(s).insert(k, vv)[x] by {
                let i = choose|i: int| 0 <= i < t.len() && #[trigger] t[i].0 == x;
                lemma_groups_unique(t, i);
                if i < p {
                    lemma_groups_unique(s, i);
                } else if i > p {
                    lemma_groups_unique(s, i - 1);
                }
            }
            assert(groups_map(t) =~= groups_map(s).insert(k, vv));
        }
    }
}

/// Extracts all groups made of an integer followed by reals in a line,
/// ignoring other fields (which end a group), in increasing order of the
/// integer; a later group with the same integer replaces an earlier one.
pub fn int_pattern(fs: &Vec<LineField>) -> (r: Vec<(usize, Vec<RealText>)>)
    ensures
        groups_sorted(r@),
        groups_map(r@) == int_pattern_map(field_views(fs@)),
{
    let mut res: Vec<(usize, Vec<RealText>)> = Vec::new();
    let mut cur: Option<(usize, Vec<RealText>)> = None;
    let mut i: usize = 0;
    assert(groups_map(res@) =~= Map::<usize, Seq<Seq<char>>>::empty());
    while i < fs.len()
        invariant
            i <= fs@.len(),
            groups_sorted(res@),
            groups_map(res@) == pattern_scan(field_views(fs@).take(i as int)).0,
            match cur {
                Some((k, v)) => pattern_scan(field_views(fs@).take(i as int)).1 == Some((k, real_texts(v@))),
                None => pattern_scan(field_views(fs@).take(i as int)).1 is None,
            },
        decreases fs.len() - i,
    {
        assert(field_views(fs@).take(i + 1).drop_last() =~= field_views(fs@).take(i as int));
        assert(field_views(fs@).take(i + 1).last() == fs@[i as int]@);
        match &fs[i] {
            LineField::Integer(x) => {
                let x = *x;
                match cur {
                    Some((k, v)) => group_insert(&mut res, k, v),
                    None => {},
                }
                let nv: Vec<RealText> = Vec::new();
                assert(real_texts(nv@) =~= Seq::<Seq<char>>::empty());
                cur = Some((x as usize, nv));
            },
            LineField::Real(x) => {
                match cur {
                    Some((k, v)) => {
                        let mut v = v;
                        let ghost before = real_texts(v@);
                        v.push(x.copy());
                        assert(real_texts(v@) =~= before.push(x@));
                        cur = Some((k, v));
                    },
                    None => {
                        cur = None;
                    },
                }
            },
            _ => {
                match cur {
                    Some((k, v)) => group_insert(&mut res, k, v),
                    None => {},
                }
                cur = None;
            },
        }
        i = i + 1;
    }
    assert(field_views(fs@).take(i as int) =~= field_views(fs@));
    match cur {
        Some((k, v)) => group_insert(&mut res, k, v),
        None => {},
    }
    res
}

} // verus!

//! Detection of block headers: lines written in spaced upper-case letters
//! ("D I S P L A C E M E N T S") are turned back into words, and kept when
//! they hold words that suggest a data block.

use vstd::prelude::*;

use crate::elements::{all_etypes, etype_name, ElementType};
use crate::text::{chars_of, contains_str, seq_contains, string_of};

verus! {

/// Words that, found in an unspaced header, make it a likely block header.
pub open spec fn sus_words() -> Seq<Seq<char>> {
    seq![
        "ELEMENT"@, "ELEM"@, "FORCE"@, "FORCES"@, "STRESS"@, "STRESSES"@, "STRAIN"@, "STRAINS"@,
        "SPC"@, "CONSTRAINT"@, "CONSTRAINTS"@, "MPC"@, "GRID"@, "DISPLACEMENT"@, "APPLIED"@,
        "LOAD"@, "TEMPERATURE"@, "HEAT"@, "FLUX"@, "GRAVITY"@, "GRID"@, "POINT"@, "COORDINATE"@,
        "COORD"@, "SYSTEM"@, "LOCAL"@, "EIGENVECTOR"@, "EIGENVALUES"@,
    ]
}

/// Words that, found in a header, mark a block as certainly unsupported.
pub open spec fn bad_words() -> Seq<Seq<char>> {
    seq!["NASTRAN"@, "CONTROL"@, "BULK"@, "ECHO"@, "NODAL"@, "GENERATOR"@]
}

/// Returns the words that make a header line suspicious.
pub fn sus_word_list() -> (r: &'static [&'static str])
    ensures
        r@.len() == sus_words().len(),
        forall|i: int| 0 <= i < r@.len() ==> (#[trigger] r@[i])@ == sus_words()[i],
{
    let r: &'static [&'static str] = &[
        "ELEMENT", "ELEM", "FORCE", "FORCES", "STRESS", "STRESSES", "STRAIN", "STRAINS", "SPC",
        "CONSTRAINT", "CONSTRAINTS", "MPC", "GRID", "DISPLACEMENT", "APPLIED", "LOAD",
        "TEMPERATURE", "HEAT", "FLUX", "GRAVITY", "GRID", "POINT", "COORDINATE", "COORD", "SYSTEM",
        "LOCAL", "EIGENVECTOR", "EIGENVALUES",
    ];
    r
}

/// Returns the words that mark a block as unsupported.
pub fn bad_word_list() -> (r: &'static [&'static str])
    ensures
        r@.len() == bad_words().len(),
        forall|i: int| 0 <= i < r@.len() ==> (#[trigger] r@[i])@ == bad_words()[i],
{
    let r: &'static [&'static str] = &["NASTRAN", "CONTROL", "BULK", "ECHO", "NODAL", "GENERATOR"];
    r
}

/// Is the character an upper-case ASCII letter, an ASCII digit, or one of
/// `()[]-.`?
pub open spec fn is_header_char(ch: char) -> bool {
    ('A' <= ch && ch <= 'Z') || ('0' <= ch && ch <= '9') || ch == '(' || ch == ')' || ch == '['
        || ch == ']' || ch == '-' || ch == '.'
}

/// Checks if a character is an uppercase letter, a digit, or one of the
/// special characters allowed in a spaced header.
pub fn upper_or_digit_or_special(ch: char) -> (r: bool)
    ensures
        r == is_header_char(ch),
{
    ('A' <= ch && ch <= 'Z') || ('0' <= ch && ch <= '9') || ch == '(' || ch == ')' || ch == '['
        || ch == ']' || ch == '-' || ch == '.'
}

/// Is the character ASCII white space, as `split_ascii_whitespace` takes it?
pub open spec fn is_ascii_ws(c: char) -> bool {
    c == ' ' || c == '\t' || c == '\n' || c == '\x0C' || c == '\r'
}

/// The position of the first character at or after `i` that is not ASCII
/// white space.
pub open spec fn skip_ws(s: Seq<char>, i: int) -> int
    decreases s.len() - i,
{
    if i < 0 || i >= s.len() || !is_ascii_ws(s[i]) { i } else { skip_ws(s, i + 1) }
}

/// The position of the first ASCII white space at or after `i`, or the length.
pub open spec fn word_end(s: Seq<char>, i: int) -> int
    decreases s.len() - i,
{
    if i < 0 || i >= s.len() || is_ascii_ws(s[i]) { i } else { word_end(s, i + 1) }
}

/// Is the first white-space separated word of the line `CYCLES`?
pub open spec fn starts_with_cycles(s: Seq<char>) -> bool {
    let a = skip_ws(s, 0);
    let b = word_end(s, a);
    a < s.len() && s.subrange(a, b) == seq!['C', 'Y', 'C', 'L', 'E', 'S']
}

/// The position of the first `R` in the line, if any.
pub open spec fn first_r(s: Seq<char>, i: int) -> Option<int>
    decreases s.len() - i,
{
    if i < 0 || i >= s.len() {
        None
    } else if s[i] == 'R' {
        Some(i)
    } else {
        first_r(s, i + 1)
    }
}

/// The part of a line that header detection looks at: the whole line, except
/// for eigenvalue tables (first word `CYCLES`), where it starts one character
/// before the first `R`. `None` when such a line has no `R`.
pub open spec fn header_scope(s: Seq<char>) -> Option<Seq<char>> {
    if starts_with_cycles(s) {
        match first_r(s, 0) {
            Some(p) => if p >= 1 { Some(s.skip(p - 1)) } else { None },
            None => None,
        }
    } else {
        Some(s)
    }
}

/// The outcome of the first scan of a spaced header.
pub ghost enum SpacedScan {
    /// The line is not a spaced header.
    Fail,
    /// The header ends before position `stop`; `cap` counts two for each
    /// spaced character seen.
    Stop { stop: int, cap: int },
}

/// The first scan: every upper-case character must follow a space, until
/// more than ten spaced characters were seen (after which an unspaced one
/// ends the header, dropping its last two characters); any other character
/// than a space or a header character fails.
pub open spec fn spaced_scan(s: Seq<char>, i: int, cap: int, after_space: bool) -> SpacedScan
    decreases s.len() - i,
{
    if i < 0 || i >= s.len() {
        SpacedScan::Stop { stop: s.len() as int, cap }
    } else if is_header_char(s[i]) {
        if after_space {
            spaced_scan(s, i + 1, cap + 2, false)
        } else if cap > 20 {
            SpacedScan::Stop { stop: i - 1, cap }
        } else {
            SpacedScan::Fail
        }
    } else if s[i] == ' ' {
        spaced_scan(s, i + 1, cap, true)
    } else {
        SpacedScan::Fail
    }
}

/// The second scan: from the first run of more than three spaces on, keep the
/// header characters, putting one space before each that follows a run of 2
/// to 14 spaces.
pub open spec fn unspaced_text(s: Seq<char>, i: int, stop: int, run: int, started: bool, acc: Seq<char>) -> Seq<char>
    decreases stop - i,
{
    if i < 0 || i >= stop || i >= s.len() {
        acc
    } else {
        let ch = s[i];
        let r = if ch == ' ' { run + 1 } else { run };
        let st = started || r > 3;
        if !st {
            unspaced_text(s, i + 1, stop, r, st, acc)
        } else if is_header_char(ch) {
            unspaced_text(
                s,
                i + 1,
                stop,
                0,
                st,
                if 2 <= r && r < 15 { acc.push(' ').push(ch) } else { acc.push(ch) },
            )
        } else {
            unspaced_text(s, i + 1, stop, r, st, acc)
        }
    }
}

/// The text without leading and trailing spaces.
pub open spec fn trim_spaces(s: Seq<char>) -> Seq<char>
    decreases s.len(),
{
    if s.len() > 0 && s[0] == ' ' {
        trim_spaces(s.drop_first())
    } else if s.len() > 0 && s.last() == ' ' {
        trim_spaces(s.drop_last())
    } else {
        s
    }
}

/// The words of a line made of spaced upper-case characters, or `None` when
/// the line is not one.
pub open spec fn unspaced(line: Seq<char>) -> Option<Seq<char>> {
    match header_scope(line) {
        None => None,
        Some(s) => match spaced_scan(s, 0, 0, true) {
            SpacedScan::Fail => None,
            SpacedScan::Stop { stop, cap } => if cap < 4 {
                None
            } else {
                Some(trim_spaces(unspaced_text(s, 0, stop, 0, false, seq![])))
            },
        },
    }
}

fn exec_starts_with_cycles(s: &Vec<char>) -> (r: bool)
    ensures
        r == starts_with_cycles(s@),
{
    let mut a: usize = 0;
    while a < s.len() && (s[a] == ' ' || s[a] == '\t' || s[a] == '\n' || s[a] == '\x0C' || s[a] == '\r')
        invariant
            a <= s@.len(),
            skip_ws(s@, 0) == skip_ws(s@, a as int),
        decreases s.len() - a,
    {
        a = a + 1;
    }
    let mut b: usize = a;
    while b < s.len() && !(s[b] == ' ' || s[b] == '\t' || s[b] == '\n' || s[b] == '\x0C' || s[b] == '\r')
        invariant
            a <= b <= s@.len(),
            word_end(s@, a as int) == word_end(s@, b as int),
        decreases s.len() - b,
    {
        b = b + 1;
    }
    if a >= s.len() || b - a != 6 {
        proof {
            if a < s@.len() {
                assert(s@.subrange(a as int, b as int).len() != 6);
            }
        }
        return false;
    }
    let r = s[a] == 'C' && s[a + 1] == 'Y' && s[a + 2] == 'C' && s[a + 3] == 'L' && s[a + 4] == 'E'
        && s[a + 5] == 'S';
    proof {
        let w = s@.subrange(a as int, b as int);
        if r {
            assert(w =~= seq!['C', 'Y', 'C', 'L', 'E', 'S']);
        } else {
            if w == seq!['C', 'Y', 'C', 'L', 'E', 'S'] {
                assert(w[0] == s@[a as int] && w[1] == s@[a + 1] && w[2] == s@[a + 2]);
                assert(w[3] == s@[a + 3] && w[4] == s@[a + 4] && w[5] == s@[a + 5]);
            }
        }
    }
    r
}

fn exec_header_scope(line: &Vec<char>) -> (r: Option<Vec<char>>)
    ensures
        r is Some == header_scope(line@) is Some,
        r matches Some(v) ==> header_scope(line@) == Some(v@),
{
    if !exec_starts_with_cycles(line) {
        return Some(crate::text::copy_chars(line));
    }
    let mut p: usize = 0;
    while p < line.len() && line[p] != 'R'
        invariant
            p <= line@.len(),
            first_r(line@, 0) == first_r(line@, p as int),
        decreases line.len() - p,
    {
        p = p + 1;
    }
    if p >= line.len() || p < 1 {
        return None;
    }
    let mut v: Vec<char> = Vec::new();
    let mut i: usize = p - 1;
    while i < line.len()
        invariant
            1 <= p < line@.len(),
            p - 1 <= i <= line@.len(),
            v@ == line@.subrange(p - 1, i as int),
        decreases line.len() - i,
    {
        v.push(line[i]);
        i = i + 1;
        assert(v@ =~= line@.subrange(p - 1, i as int));
    }
    assert(v@ =~= line@.skip(p - 1));
    Some(v)
}

/// Turns a line made of spaced upper-case ASCII into a line of upper-case
/// words, used for detecting block headers.
pub fn unspace(line: &Vec<char>) -> (r: Option<Vec<char>>)
    ensures
        r is Some == unspaced(line@) is Some,
        r matches Some(v) ==> unspaced(line@) == Some(v@),
{
    let s = match exec_header_scope(line) {
        Some(s) => s,
        None => return None,
    };
    // first scan
    // `seen` counts the spaced characters; the scan's `cap` is twice that.
    let mut seen: usize = 0;
    let mut after_space = true;
    let mut i: usize = 0;
    let mut stop: usize = s.len();
    let mut failed = false;
    while i < s.len()
        invariant_except_break
            i <= s@.len(),
            seen <= i,
            stop == s@.len(),
            !failed,
            spaced_scan(s@, 0, 0, true) == spaced_scan(s@, i as int, 2 * seen, after_space),
        ensures
            failed ==> spaced_scan(s@, 0, 0, true) == SpacedScan::Fail,
            !failed ==> spaced_scan(s@, 0, 0, true) == (SpacedScan::Stop { stop: stop as int, cap: 2 * seen }),
        decreases s.len() - i,
    {
        let ch = s[i];
        if upper_or_digit_or_special(ch) {
            if after_space {
                seen = seen + 1;
                after_space = false;
            } else if seen > 10 {
                stop = i - 1;
                break;
            } else {
                failed = true;
                break;
            }
        } else if ch == ' ' {
            after_space = true;
        } else {
            failed = true;
            break;
        }
        i = i + 1;
    }
    if failed {
        return None;
    }
    if seen < 2 {
        return None;
    }
    // second scan
    let mut acc: Vec<char> = Vec::new();
    let mut run: usize = 0;
    let mut started = false;
    let mut j: usize = 0;
    while j < stop && j < s.len()
        invariant
            j <= s@.len(),
            run <= j,
            unspaced_text(s@, 0, stop as int, 0, false, seq![]) == unspaced_text(
                s@,
                j as int,
                stop as int,
                run as int,
                started,
                acc@,
            ),
        decreases s.len() - j,
    {
        let ch = s[j];
        let r = if ch == ' ' { run + 1 } else { run };
        let st = started || r > 3;
        started = st;
        if !st {
            run = r;
        } else if upper_or_digit_or_special(ch) {
            if 2 <= r && r < 15 {
                acc.push(' ');
            }
            acc.push(ch);
            run = 0;
        } else {
            run = r;
        }
        j = j + 1;
    }
    // trim
    let mut lo: usize = 0;
    let mut hi: usize = acc.len();
    assert(acc@.subrange(0, acc@.len() as int) =~= acc@);
    while lo < hi && acc[lo] == ' '
        invariant
            lo <= hi <= acc@.len(),
            hi == acc@.len(),
            trim_spaces(acc@) == trim_spaces(acc@.subrange(lo as int, hi as int)),
        decreases hi - lo,
    {
        assert(acc@.subrange(lo as int, hi as int).drop_first() =~= acc@.subrange(lo + 1, hi as int));
        lo = lo + 1;
    }
    while lo < hi && acc[hi - 1] == ' '
        invariant
            lo <= hi <= acc@.len(),
            lo == hi || acc@[lo as int] != ' ',
            trim_spaces(acc@) == trim_spaces(acc@.subrange(lo as int, hi as int)),
        decreases hi - lo,
    {
        assert(acc@.subrange(lo as int, hi as int).drop_last() =~= acc@.subrange(lo as int, hi - 1));
        hi = hi - 1;
    }
    let mut out: Vec<char> = Vec::new();
    let mut k: usize = lo;
    while k < hi
        invariant
            lo <= k <= hi <= acc@.len(),
            out@ == acc@.subrange(lo as int, k as int),
        decreases hi - k,
    {
        out.push(acc[k]);
        k = k + 1;
        assert(out@ =~= acc@.subrange(lo as int, k as int));
    }
    assert(trim_spaces(out@) == out@);
    Some(out)
}

/// Does the text contain one of the suspicious words or an element type
/// name?
pub open spec fn looks_like_header(u: Seq<char>) -> bool {
    (exists|i: int| 0 <= i < sus_words().len() && seq_contains(u, #[trigger] sus_words()[i]))
        || (exists|i: int| 0 <= i < all_etypes().len() && seq_contains(u, etype_name(#[trigger] all_etypes()[i])))
}

/// The header text of a line: its unspaced words, when they look like a
/// block header.
pub open spec fn header_text(line: Seq<char>) -> Option<Seq<char>> {
    match unspaced(line) {
        Some(u) => if looks_like_header(u) { Some(u) } else { None },
        None => None,
    }
}

/// Checks if a line is a likely block header, returning its unspaced text.
pub fn check_header(line: &Vec<char>) -> (r: Option<Vec<char>>)
    ensures
        r is Some == header_text(line@) is Some,
        r matches Some(v) ==> header_text(line@) == Some(v@),
{
    let u = match unspace(line) {
        Some(u) => u,
        None => return None,
    };
    let sus = sus_word_list();
    let mut i: usize = 0;
    while i < sus.len()
        invariant
            unspaced(line@) == Some(u@),
            sus@.len() == sus_words().len(),
            forall|k: int| 0 <= k < sus@.len() ==> (#[trigger] sus@[k])@ == sus_words()[k],
            i <= sus@.len(),
            forall|k: int| 0 <= k < i ==> !seq_contains(u@, #[trigger] sus_words()[k]),
        decreases sus.len() - i,
    {
        if contains_str(&u, sus[i]) {
            proof {
                assert(seq_contains(u@, sus_words()[i as int]));
                assert(looks_like_header(u@));
            }
            return Some(u);
        }
        i = i + 1;
    }
    let all = ElementType::all();
    let mut j: usize = 0;
    while j < all.len()
        invariant
            unspaced(line@) == Some(u@),
            all@ == all_etypes(),
            j <= all@.len(),
            forall|k: int| 0 <= k < sus_words().len() ==> !seq_contains(u@, #[trigger] sus_words()[k]),
            forall|k: int| 0 <= k < j ==> !seq_contains(u@, etype_name(#[trigger] all_etypes()[k])),
        decreases all.len() - j,
    {
        if contains_str(&u, all[j].name()) {
            proof {
                assert(seq_contains(u@, etype_name(all_etypes()[j as int])));
                assert(looks_like_header(u@));
            }
            return Some(u);
        }
        j = j + 1;
    }
    assert(!looks_like_header(u@));
    None
}

/// A line range that may hold the header of an unsupported block.
#[derive(Clone, Debug)]
pub struct PotentialHeader {
    /// Starting line.
    pub start: usize,
    /// Number of lines this takes up.
    pub span: usize,
    /// The unspaced text.
    pub text: String,
}

/// A header by its first line, its number of lines and its text.
pub open spec fn header_view(h: PotentialHeader) -> (int, int, Seq<char>) {
    (h.start as int, h.span as int, h.text@)
}

/// What merging two headers gives: with the earlier one first, one header
/// joining both when the later one starts on the line after the earlier
/// one ends, else both unchanged.
pub open spec fn header_merge(a: PotentialHeader, b: PotentialHeader) -> Result<
    (int, int, Seq<char>),
    ((int, int, Seq<char>), (int, int, Seq<char>)),
> {
    let (first, second) = if a.start <= b.start { (a, b) } else { (b, a) };
    if first.start + first.span == second.start {
        Ok((first.start as int, first.span + second.span, first.text@ + seq![' '] + second.text@))
    } else {
        Err((header_view(first), header_view(second)))
    }
}

/// The view of the result of a merge of headers.
pub open spec fn merge_result_view(r: Result<PotentialHeader, (PotentialHeader, PotentialHeader)>) -> Result<
    (int, int, Seq<char>),
    ((int, int, Seq<char>), (int, int, Seq<char>)),
> {
    match r {
        Ok(m) => Ok(header_view(m)),
        Err((a, b)) => Err((header_view(a), header_view(b))),
    }
}

/// Merging two headers that start on different lines does not depend on
/// which one the merge is asked of.
pub proof fn law_header_merge_order(a: PotentialHeader, b: PotentialHeader)
    requires
        a.start != b.start,
    ensures
        header_merge(a, b) == header_merge(b, a),
{
}

impl PotentialHeader {
    /// The line numbers this header covers.
    pub open spec fn line_set(&self) -> Seq<int> {
        Seq::new(self.span as nat, |i: int| self.start + i)
    }

    /// Returns the line numbers this header covers, in order.
    pub fn lines(&self) -> (r: Vec<usize>)
        requires
            self.start + self.span <= usize::MAX,
        ensures
            r@.len() == self.span,
            forall|i: int| 0 <= i < r@.len() ==> r@[i] == self.start + i,
    {
        let mut r: Vec<usize> = Vec::new();
        let mut i: usize = 0;
        while i < self.span
            invariant
                self.start + self.span <= usize::MAX,
                i <= self.span,
                r@.len() == i,
                forall|k: int| 0 <= k < i ==> r@[k] == self.start + k,
            decreases self.span - i,
        {
            r.push(self.start + i);
            i = i + 1;
        }
        r
    }

    /// Merges this potential header with another, if their line ranges are
    /// adjacent; otherwise gives both back, the earlier first.
    pub fn try_merge(self, other: Self) -> (r: Result<PotentialHeader, (PotentialHeader, PotentialHeader)>)
        requires
            self.span > 0,
            other.span > 0,
            self.start + self.span <= usize::MAX,
            other.start + other.span <= usize::MAX,
            self.start > 0 || other.start > 0,
        ensures
            merge_result_view(r) == header_merge(self, other),
    {
        let (first, second) = if self.start <= other.start { (self, other) } else { (other, self) };
        if first.start + first.span - 1 == second.start - 1 {
            let mut t = chars_of(first.text.as_str());
            t.push(' ');
            let st = chars_of(second.text.as_str());
            let mut i: usize = 0;
            let ghost base = t@;
            while i < st.len()
                invariant
                    i <= st@.len(),
                    t@ == base + st@.take(i as int),
                decreases st.len() - i,
            {
                t.push(st[i]);
                i = i + 1;
                assert(t@ =~= base + st@.take(i as int));
            }
            assert(st@.take(i as int) =~= st@);
            let m = PotentialHeader { start: first.start, span: first.span + second.span, text: string_of(t.as_slice()) };
            assert(m.text@ == first.text@ + seq![' '] + second.text@);
            assert(header_view(m) == (first.start as int, first.span + second.span, first.text@ + seq![' '] + second.text@));
            Ok(m)
        } else {
            Err((first, second))
        }
    }
}

} // verus!

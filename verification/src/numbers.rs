//! Numbers as they appear in solver output: the integer grammar of `isize`,
//! the real-number grammar of `f64` (reals are kept as the text they were
//! read from), and the values stored in data blocks.

use vstd::prelude::*;

verus! {

/// Is the character an ASCII digit?
pub open spec fn is_digit(c: char) -> bool {
    '0' <= c && c <= '9'
}

/// Is the character a sign?
pub open spec fn is_sign(c: char) -> bool {
    c == '+' || c == '-'
}

/// Are all characters ASCII digits?
pub open spec fn all_digits(s: Seq<char>) -> bool {
    forall|i: int| 0 <= i < s.len() ==> is_digit(#[trigger] s[i])
}

/// The value of a run of decimal digits.
pub open spec fn digits_value(s: Seq<char>) -> nat
    decreases s.len(),
{
    if s.len() == 0 {
        0
    } else {
        digits_value(s.drop_last()) * 10 + ((s.last() as int - '0' as int) as nat)
    }
}

/// The integer a token spells, following the grammar of Rust's integer
/// parsing: an optional sign, then at least one digit.
pub open spec fn int_token_value(t: Seq<char>) -> Option<int> {
    if t.len() > 0 && is_sign(t[0]) {
        let d = t.drop_first();
        if d.len() > 0 && all_digits(d) {
            Some(if t[0] == '-' { -(digits_value(d) as int) } else { digits_value(d) as int })
        } else {
            None
        }
    } else if t.len() > 0 && all_digits(t) {
        Some(digits_value(t) as int)
    } else {
        None
    }
}

/// What parsing a token as an `isize` gives: its integer, if it spells one
/// that fits.
pub open spec fn parse_isize(t: Seq<char>) -> Option<isize> {
    match int_token_value(t) {
        Some(v) => if isize::MIN <= v <= isize::MAX {
            Some(v as isize)
        } else {
            None
        },
        None => None,
    }
}

/// A longer run of digits is worth at least as much as its prefix.
proof fn lemma_digits_value_prefix(s: Seq<char>, k: int)
    requires
        0 <= k <= s.len(),
    ensures
        digits_value(s.take(k)) <= digits_value(s),
    decreases s.len(),
{
    if k < s.len() {
        assert(s.drop_last().take(k) =~= s.take(k));
        lemma_digits_value_prefix(s.drop_last(), k);
    } else {
        assert(s.take(k) =~= s);
    }
}

/// Parses a token as an `isize`, as Rust's integer parsing does.
pub fn parse_isize_token(t: &Vec<char>) -> (r: Option<isize>)
    ensures
        r == parse_isize(t@),
{
    let n = t.len();
    if n == 0 {
        return None;
    }
    let neg = t[0] == '-';
    let start: usize = if t[0] == '+' || t[0] == '-' { 1 } else { 0 };
    if start == n {
        return None;
    }
    let ghost d = t@.skip(start as int);
    proof {
        if start == 1 {
            assert(d =~= t@.drop_first());
        } else {
            assert(d =~= t@);
        }
    }
    // magnitudes beyond this bound do not fit any isize
    let bound: u128 = 0x1_0000_0000_0000_0000;
    let mut acc: u128 = 0;
    let mut i: usize = start;
    while i < n
        invariant
            start <= i <= n,
            n == t@.len(),
            n > 0,
            start <= 1,
            start == 1 <==> is_sign(t@[0]),
            neg == (t@[0] == '-'),
            bound == 0x1_0000_0000_0000_0000u128,
            d == t@.skip(start as int),
            d == (if start == 1 { t@.drop_first() } else { t@ }),
            forall|k: int| start <= k < i ==> is_digit(#[trigger] t@[k]),
            acc as nat == digits_value(d.take(i - start)),
            acc <= bound,
        decreases n - i,
    {
        let c = t[i];
        if !('0' <= c && c <= '9') {
            proof {
                assert(d[i - start] == c);
                assert(!is_digit(d[i - start]));
                assert(!all_digits(d));
            }
            return None;
        }
        let dv = (c as u32 - '0' as u32) as u128;
        assert(dv <= 9);
        assert(d.take(i + 1 - start).drop_last() =~= d.take(i - start));
        assert(d.take(i + 1 - start).last() == c);
        assert(dv as int == c as int - '0' as int);
        acc = acc * 10 + dv;
        i = i + 1;
        if acc > bound {
            proof {
                lemma_digits_value_prefix(d, i - start);
                if !all_digits(d) {
                    let k = choose|k: int| 0 <= k < d.len() && !is_digit(d[k]);
                    assert(d[k] == t@[start + k]);
                }
            }
            // the rest may still hold a non-digit; either way there is no isize
            let mut j = i;
            while j < n
                invariant
                    i <= j <= n,
                    n == t@.len(),
                decreases n - j,
            {
                j = j + 1;
            }
            return None;
        }
    }
    assert(d.take(n - start) =~= d);
    assert(all_digits(d));
    if start == 0 {
        assert(d =~= t@);
    }
    if neg {
        if acc <= 0x8000_0000_0000_0000u128 && acc as i128 <= (isize::MAX as i128) + 1 {
            let v: i128 = -(acc as i128);
            if v >= isize::MIN as i128 {
                return Some(v as isize);
            }
        }
        None
    } else {
        if acc <= isize::MAX as u128 {
            Some(acc as isize)
        } else {
            None
        }
    }
}

/// The ASCII lower-case form of a character.
pub open spec fn lower(c: char) -> char {
    if 'A' <= c && c <= 'Z' {
        ((c as u32) + 32) as char
    } else {
        c
    }
}

/// A token without its leading sign, if any.
pub open spec fn unsigned_body(t: Seq<char>) -> Seq<char> {
    if t.len() > 0 && is_sign(t[0]) { t.drop_first() } else { t }
}

/// Does the text spell `inf`, `infinity` or `nan`, in any case?
pub open spec fn is_special_real(b: Seq<char>) -> bool {
    let l = b.map_values(|c: char| lower(c));
    l == seq!['i', 'n', 'f'] || l == seq!['i', 'n', 'f', 'i', 'n', 'i', 't', 'y'] || l == seq!['n', 'a', 'n']
}

/// The position of the first exponent marker (`e` or `E`), or the length.
pub open spec fn exp_pos(b: Seq<char>) -> int
    decreases b.len(),
{
    if b.len() == 0 {
        0
    } else if b[0] == 'e' || b[0] == 'E' {
        0
    } else {
        1 + exp_pos(b.drop_first())
    }
}

/// Is the text a mantissa: digits with at most one dot and at least one
/// digit? `dot` and `digit` tell whether a dot and a digit came before.
pub open spec fn mantissa_from(m: Seq<char>, dot: bool, digit: bool) -> bool
    decreases m.len(),
{
    if m.len() == 0 {
        digit
    } else if m[0] == '.' {
        !dot && mantissa_from(m.drop_first(), true, digit)
    } else {
        is_digit(m[0]) && mantissa_from(m.drop_first(), dot, true)
    }
}

/// Is the text an exponent body: an optional sign and at least one digit?
pub open spec fn is_exponent(x: Seq<char>) -> bool {
    let d = unsigned_body(x);
    d.len() > 0 && all_digits(d)
}

/// Is the text a decimal number: a mantissa, then optionally an exponent
/// marker and an exponent?
pub open spec fn is_decimal(b: Seq<char>) -> bool {
    let p = exp_pos(b);
    mantissa_from(b.take(p), false, false) && (p == b.len() || is_exponent(b.skip(p + 1)))
}

/// Does the token parse as an `f64`, following the grammar that Rust's
/// documentation gives for it?
pub open spec fn is_real_token(t: Seq<char>) -> bool {
    is_special_real(unsigned_body(t)) || is_decimal(unsigned_body(t))
}

/// Does the real token stand for zero: a decimal whose mantissa digits are
/// all zero?
pub open spec fn real_is_zero(t: Seq<char>) -> bool {
    let b = unsigned_body(t);
    is_decimal(b) && (forall|i: int| 0 <= i < exp_pos(b) ==> (#[trigger] b[i] == '0' || b[i] == '.'))
}

proof fn lemma_exp_pos_bounds(b: Seq<char>)
    ensures
        0 <= exp_pos(b) <= b.len(),
        exp_pos(b) < b.len() ==> (b[exp_pos(b)] == 'e' || b[exp_pos(b)] == 'E'),
        forall|i: int| 0 <= i < exp_pos(b) ==> (b[i] != 'e' && b[i] != 'E'),
    decreases b.len(),
{
    if b.len() > 0 && b[0] != 'e' && b[0] != 'E' {
        lemma_exp_pos_bounds(b.drop_first());
        assert forall|i: int| 0 <= i < exp_pos(b) implies (b[i] != 'e' && b[i] != 'E') by {
            if i > 0 {
                assert(b[i] == b.drop_first()[i - 1]);
            }
        }
    }
}

fn exec_exp_pos(b: &[char], lo: usize) -> (r: usize)
    requires
        lo <= b@.len(),
    ensures
        r == lo + exp_pos(b@.skip(lo as int)),
{
    let mut i: usize = lo;
    assert(b@.skip(lo as int).skip(0) =~= b@.skip(lo as int));
    while i < b.len()
        invariant
            lo <= i <= b@.len(),
            exp_pos(b@.skip(lo as int)) == (i - lo) + exp_pos(b@.skip(i as int)),
        decreases b.len() - i,
    {
        if b[i] == 'e' || b[i] == 'E' {
            return i;
        }
        assert(b@.skip(i as int).drop_first() =~= b@.skip(i + 1));
        i = i + 1;
    }
    i
}

fn exec_mantissa(m: &[char], lo: usize, hi: usize) -> (r: bool)
    requires
        lo <= hi <= m@.len(),
    ensures
        r == mantissa_from(m@.subrange(lo as int, hi as int), false, false),
{
    let mut dot = false;
    let mut digit = false;
    let mut i: usize = lo;
    while i < hi
        invariant
            lo <= i <= hi <= m@.len(),
            mantissa_from(m@.subrange(lo as int, hi as int), false, false) == mantissa_from(
                m@.subrange(i as int, hi as int),
                dot,
                digit,
            ),
        decreases hi - i,
    {
        assert(m@.subrange(i as int, hi as int).drop_first() =~= m@.subrange(i + 1, hi as int));
        let c = m[i];
        if c == '.' {
            if dot {
                return false;
            }
            dot = true;
        } else if '0' <= c && c <= '9' {
            digit = true;
        } else {
            return false;
        }
        i = i + 1;
    }
    digit
}

fn exec_all_digits(m: &[char], lo: usize, hi: usize) -> (r: bool)
    requires
        lo <= hi <= m@.len(),
    ensures
        r == all_digits(m@.subrange(lo as int, hi as int)),
{
    let mut i: usize = lo;
    while i < hi
        invariant
            lo <= i <= hi <= m@.len(),
            forall|k: int| lo <= k < i ==> is_digit(#[trigger] m@[k]),
        decreases hi - i,
    {
        let c = m[i];
        if !('0' <= c && c <= '9') {
            assert(m@.subrange(lo as int, hi as int)[i - lo] == c);
            return false;
        }
        i = i + 1;
    }
    assert forall|k: int| 0 <= k < hi - lo implies is_digit(#[trigger] m@.subrange(lo as int, hi as int)[k]) by {
        assert(m@.subrange(lo as int, hi as int)[k] == m@[lo + k]);
    }
    true
}

fn exec_lower_is(m: &[char], lo: usize, word: &[char]) -> (r: bool)
    requires
        lo <= m@.len(),
    ensures
        r == (m@.skip(lo as int).map_values(|c: char| lower(c)) == word@),
{
    let ghost l = m@.skip(lo as int).map_values(|c: char| lower(c));
    let ml = m.len();
    if ml - lo != word.len() {
        return false;
    }
    let mut i: usize = 0;
    while i < word.len()
        invariant
            lo + word@.len() == m@.len(),
            ml == m@.len(),
            i <= word@.len(),
            l == m@.skip(lo as int).map_values(|c: char| lower(c)),
            forall|k: int| 0 <= k < i ==> l[k] == word@[k],
        decreases word.len() - i,
    {
        let c = m[lo + i];
        let lc = if 'A' <= c && c <= 'Z' {
            let u = c as u32 + 32;
            proof {
                assert(u == (c as u32) + 32);
            }
            if c == 'A' { 'a' } else if c == 'B' { 'b' } else if c == 'C' { 'c' } else if c == 'D' { 'd' }
            else if c == 'E' { 'e' } else if c == 'F' { 'f' } else if c == 'G' { 'g' } else if c == 'H' { 'h' }
            else if c == 'I' { 'i' } else if c == 'J' { 'j' } else if c == 'K' { 'k' } else if c == 'L' { 'l' }
            else if c == 'M' { 'm' } else if c == 'N' { 'n' } else if c == 'O' { 'o' } else if c == 'P' { 'p' }
            else if c == 'Q' { 'q' } else if c == 'R' { 'r' } else if c == 'S' { 's' } else if c == 'T' { 't' }
            else if c == 'U' { 'u' } else if c == 'V' { 'v' } else if c == 'W' { 'w' } else if c == 'X' { 'x' }
            else if c == 'Y' { 'y' } else { 'z' }
        } else {
            c
        };
        assert(lc == lower(c));
        assert(l[i as int] == lower(m@[lo + i]));
        if lc != word[i] {
            return false;
        }
        i = i + 1;
    }
    assert(l =~= word@);
    true
}

/// Checks whether a token parses as an `f64`.
pub fn is_real(t: &[char]) -> (r: bool)
    ensures
        r == is_real_token(t@),
{
    let lo: usize = if t.len() > 0 && (t[0] == '+' || t[0] == '-') { 1 } else { 0 };
    let ghost b = unsigned_body(t@);
    assert(b =~= t@.skip(lo as int));
    let inf: [char; 3] = ['i', 'n', 'f'];
    let infinity: [char; 8] = ['i', 'n', 'f', 'i', 'n', 'i', 't', 'y'];
    let nan: [char; 3] = ['n', 'a', 'n'];
    assert(inf@ =~= seq!['i', 'n', 'f']);
    assert(infinity@ =~= seq!['i', 'n', 'f', 'i', 'n', 'i', 't', 'y']);
    assert(nan@ =~= seq!['n', 'a', 'n']);
    if exec_lower_is(t, lo, &inf) || exec_lower_is(t, lo, &infinity) || exec_lower_is(t, lo, &nan) {
        return true;
    }
    let p = exec_exp_pos(t, lo);
    proof {
        assert(t@.subrange(lo as int, t@.len() as int) =~= b);
        lemma_exp_pos_bounds(b);
        assert(b.take(p - lo) =~= t@.subrange(lo as int, p as int));
    }
    if !exec_mantissa(t, lo, p) {
        return false;
    }
    if p == t.len() {
        return true;
    }
    let q = p + 1;
    let elo: usize = if q < t.len() && (t[q] == '+' || t[q] == '-') { q + 1 } else { q };
    proof {
        let x = b.skip(p - lo + 1);
        assert(x =~= t@.skip(q as int));
        assert(unsigned_body(x) =~= t@.subrange(elo as int, t@.len() as int));
    }
    elo < t.len() && exec_all_digits(t, elo, t.len())
}

/// Checks whether a real token stands for zero.
pub fn is_zero_real(t: &[char]) -> (r: bool)
    ensures
        r == real_is_zero(t@),
{
    let lo: usize = if t.len() > 0 && (t[0] == '+' || t[0] == '-') { 1 } else { 0 };
    let ghost b = unsigned_body(t@);
    assert(b =~= t@.skip(lo as int));
    assert(t@.subrange(lo as int, t@.len() as int) =~= b);
    let p = exec_exp_pos(t, lo);
    proof {
        lemma_exp_pos_bounds(b);
        assert(b.take(p - lo) =~= t@.subrange(lo as int, p as int));
    }
    if !exec_mantissa(t, lo, p) {
        return false;
    }
    if p < t.len() {
        let q = p + 1;
        let elo: usize = if q < t.len() && (t[q] == '+' || t[q] == '-') { q + 1 } else { q };
        proof {
            let x = b.skip(p - lo + 1);
            assert(x =~= t@.skip(q as int));
            assert(unsigned_body(x) =~= t@.subrange(elo as int, t@.len() as int));
        }
        if !(elo < t.len() && exec_all_digits(t, elo, t.len())) {
            return false;
        }
    }
    assert(is_decimal(b));
    let mut i: usize = lo;
    while i < p
        invariant
            lo <= i <= p <= t@.len(),
            b == t@.skip(lo as int),
            b == unsigned_body(t@),
            p == lo + exp_pos(b),
            is_decimal(b),
            forall|k: int| 0 <= k < i - lo ==> (#[trigger] b[k] == '0' || b[k] == '.'),
        decreases p - i,
    {
        if t[i] != '0' && t[i] != '.' {
            assert(b[i - lo] == t@[i as int]);
            return false;
        }
        i = i + 1;
    }
    true
}

/// A real number, kept as the decimal text it was read from (so that no
/// precision is lost and the text can be turned into a float where floats
/// are available).
#[derive(Clone, Debug)]
pub struct RealText {
    /// The text of the number.
    pub text: Vec<char>,
}

impl View for RealText {
    type V = Seq<char>;

    open spec fn view(&self) -> Seq<char> {
        self.text@
    }
}

impl RealText {
    /// The real zero, written `0.0`.
    pub fn zero() -> (r: RealText)
        ensures
            r@ == seq!['0', '.', '0'],
    {
        let mut text: Vec<char> = Vec::new();
        text.push('0');
        text.push('.');
        text.push('0');
        assert(text@ =~= seq!['0', '.', '0']);
        RealText { text }
    }

    /// A copy of this real.
    pub fn copy(&self) -> (r: RealText)
        ensures
            r@ == self@,
    {
        RealText { text: crate::text::copy_chars(&self.text) }
    }
}

/// Zero, written `0.0`, is a real token that stands for zero.
pub proof fn lemma_zero_is_real_zero()
    ensures
        is_real_token(seq!['0', '.', '0']),
        real_is_zero(seq!['0', '.', '0']),
{
    let z = seq!['0', '.', '0'];
    assert(unsigned_body(z) == z);
    assert(z.drop_first() =~= seq!['.', '0']);
    assert(z.drop_first().drop_first() =~= seq!['0']);
    assert(z.drop_first().drop_first().drop_first() =~= Seq::<char>::empty());
    assert(exp_pos(Seq::<char>::empty()) == 0);
    assert(exp_pos(seq!['0']) == 1) by {
        assert(seq!['0'].drop_first() =~= Seq::<char>::empty());
    }
    assert(exp_pos(seq!['.', '0']) == 2) by {
        assert(seq!['.', '0'].drop_first() =~= seq!['0']);
    }
    assert(exp_pos(z) == 3);
    assert(mantissa_from(Seq::<char>::empty(), true, true));
    assert(mantissa_from(seq!['0'], true, true)) by {
        assert(seq!['0'].drop_first() =~= Seq::<char>::empty());
    }
    assert(mantissa_from(seq!['.', '0'], false, true)) by {
        assert(seq!['.', '0'].drop_first() =~= seq!['0']);
    }
    assert(z.take(3) =~= z);
}

/// A value inside a data block.
#[derive(Clone, Debug)]
pub enum F06Number {
    /// Real value, as the text it was read from.
    Real(RealText),
    /// Integer value.
    Integer(isize),
    /// Natural value.
    Natural(usize),
}

/// The view of a block value.
pub ghost enum NumberView {
    /// A real, by its text.
    Real(Seq<char>),
    /// An integer.
    Integer(int),
    /// A natural.
    Natural(nat),
}

impl View for F06Number {
    type V = NumberView;

    open spec fn view(&self) -> NumberView {
        match self {
            F06Number::Real(r) => NumberView::Real(r@),
            F06Number::Integer(i) => NumberView::Integer(*i as int),
            F06Number::Natural(n) => NumberView::Natural(*n as nat),
        }
    }
}

impl F06Number {
    /// A copy of this value.
    pub fn copy(&self) -> (r: F06Number)
        ensures
            r@ == self@,
    {
        match self {
            F06Number::Real(x) => F06Number::Real(x.copy()),
            F06Number::Integer(i) => F06Number::Integer(*i),
            F06Number::Natural(n) => F06Number::Natural(*n),
        }
    }
}

} // verus!

//! Character-level scanning over `&str` input.
//!
//! The grammar is position-based: every parser reads from a character index
//! into the input's `Seq<char>` view and reports the index it stopped at.
//! This module holds the character classes the grammar distinguishes, maximal
//! runs of a class, literal-tag matching (case-sensitive and ASCII
//! case-insensitive), string equality and codepoint order, and the numeric
//! value of a digit run.

use vstd::prelude::*;

verus! {

/// The character sets the grammar distinguishes.
///
/// `Space` separates a key from its value; `Multispace` separates list
/// items; `Digit` builds numbers; `Token` spans a key; `Plain` spans an
/// unquoted string, which stops at a space, a tab or a newline but keeps a
/// carriage return.
#[derive(Clone, Copy, Debug, PartialEq, Eq, Structural)]
pub enum CharClass {
    Space,
    Multispace,
    Digit,
    Token,
    Plain,
}

pub open spec fn is_space_c(c: char) -> bool {
    c == ' ' || c == '\t'
}

pub open spec fn is_multispace_c(c: char) -> bool {
    c == ' ' || c == '\t' || c == '\n' || c == '\r'
}

pub open spec fn is_digit_c(c: char) -> bool {
    48 <= c as u32 <= 57
}

pub open spec fn in_class(cls: CharClass, c: char) -> bool {
    match cls {
        CharClass::Space => is_space_c(c),
        CharClass::Multispace => is_multispace_c(c),
        CharClass::Digit => is_digit_c(c),
        CharClass::Token => !is_multispace_c(c),
        CharClass::Plain => !(c == ' ' || c == '\t' || c == '\n'),
    }
}

/// Length of the maximal run of `cls` characters starting at `pos`.
pub open spec fn run_len(s: Seq<char>, pos: int, cls: CharClass) -> nat
    decreases s.len() - pos when 0 <= pos <= s.len()
{
    if pos < 0 || pos >= s.len() || !in_class(cls, s[pos]) {
        0
    } else {
        1 + run_len(s, pos + 1, cls)
    }
}

pub proof fn lemma_run_len_bound(s: Seq<char>, pos: int, cls: CharClass)
    requires
        0 <= pos <= s.len(),
    ensures
        pos + run_len(s, pos, cls) <= s.len(),
        forall|j: int| pos <= j < pos + run_len(s, pos, cls) ==> in_class(cls, s[j]),
        pos + run_len(s, pos, cls) < s.len() ==> !in_class(cls, s[pos + run_len(s, pos, cls)]),
    decreases s.len() - pos,
{
    if pos < s.len() && in_class(cls, s[pos]) {
        lemma_run_len_bound(s, pos + 1, cls);
    }
}

pub fn char_in_class(cls: CharClass, c: char) -> (r: bool)
    ensures
        r == in_class(cls, c),
{
    match cls {
        CharClass::Space => c == ' ' || c == '\t',
        CharClass::Multispace => c == ' ' || c == '\t' || c == '\n' || c == '\r',
        CharClass::Digit => {
            let u = c as u32;
            48 <= u && u <= 57
        },
        CharClass::Token => !(c == ' ' || c == '\t' || c == '\n' || c == '\r'),
        CharClass::Plain => !(c == ' ' || c == '\t' || c == '\n'),
    }
}

/// First index at or after `pos` whose character leaves `cls`.
pub fn scan_run(s: &str, pos: usize, cls: CharClass) -> (end: usize)
    requires
        pos <= s@.len(),
    ensures
        end == pos + run_len(s@, pos as int, cls),
{
    let n = s.unicode_len();
    let mut p = pos;
    while p < n && char_in_class(cls, s.get_char(p))
        invariant
            pos <= p <= n == s@.len(),
            run_len(s@, pos as int, cls) == p - pos + run_len(s@, p as int, cls),
        decreases n - p,
    {
        p = p + 1;
    }
    p
}

/// `t` occurs in `s` at position `pos`.
pub open spec fn tag_at(s: Seq<char>, pos: int, t: Seq<char>) -> bool {
    &&& 0 <= pos
    &&& pos + t.len() <= s.len()
    &&& forall|j: int| 0 <= j < t.len() ==> s[pos + j] == t[j]
}

/// Whether the literal `t` occurs in `s` at `pos`.
pub fn match_lit(s: &str, pos: usize, t: &str) -> (r: bool)
    requires
        pos <= s@.len(),
    ensures
        r == tag_at(s@, pos as int, t@),
{
    let n = s.unicode_len();
    let tn = t.unicode_len();
    if n - pos < tn {
        return false;
    }
    let mut j: usize = 0;
    while j < tn
        invariant
            0 <= j <= tn == t@.len(),
            pos + tn <= n == s@.len(),
            forall|k: int| 0 <= k < j ==> s@[pos + k] == t@[k],
        decreases tn - j,
    {
        if s.get_char(pos + j) != t.get_char(j) {
            return false;
        }
        j = j + 1;
    }
    true
}

/// The codepoint of `c` with an ASCII upper-case letter lowered.
pub open spec fn lower_u(c: char) -> int {
    if 65 <= c as u32 <= 90 {
        c as u32 + 32
    } else {
        c as u32 as int
    }
}

/// `t` occurs in `s` at `pos` up to ASCII case.
pub open spec fn tag_nc_at(s: Seq<char>, pos: int, t: Seq<char>) -> bool {
    &&& 0 <= pos
    &&& pos + t.len() <= s.len()
    &&& forall|j: int| 0 <= j < t.len() ==> lower_u(s[pos + j]) == lower_u(t[j])
}

/// Whether the literal `t` occurs in `s` at `pos`, ignoring ASCII case.
pub fn match_lit_nc(s: &str, pos: usize, t: &str) -> (r: bool)
    requires
        pos <= s@.len(),
    ensures
        r == tag_nc_at(s@, pos as int, t@),
{
    let n = s.unicode_len();
    let tn = t.unicode_len();
    if n - pos < tn {
        return false;
    }
    let mut j: usize = 0;
    while j < tn
        invariant
            0 <= j <= tn == t@.len(),
            pos + tn <= n == s@.len(),
            forall|k: int| 0 <= k < j ==> lower_u(s@[pos + k]) == lower_u(t@[k]),
        decreases tn - j,
    {
        let a = s.get_char(pos + j) as u32;
        let b = t.get_char(j) as u32;
        let la = if 65 <= a && a <= 90 {
            a + 32
        } else {
            a
        };
        let lb = if 65 <= b && b <= 90 {
            b + 32
        } else {
            b
        };
        if la != lb {
            return false;
        }
        j = j + 1;
    }
    true
}

/// Character-for-character equality of two strings.
pub fn str_eq(a: &str, b: &str) -> (r: bool)
    ensures
        r == (a@ == b@),
{
    let an = a.unicode_len();
    let bn = b.unicode_len();
    if an != bn {
        return false;
    }
    let mut j: usize = 0;
    while j < an
        invariant
            0 <= j <= an == a@.len() == b@.len(),
            forall|k: int| 0 <= k < j ==> a@[k] == b@[k],
        decreases an - j,
    {
        if a.get_char(j) != b.get_char(j) {
            assert(a@ != b@);
            return false;
        }
        j = j + 1;
    }
    proof {
        assert(a@ =~= b@);
    }
    true
}

/// Codepoint order on strings from index `i` on: the shorter string, or the
/// one with the smaller codepoint at the first difference, comes first.
pub open spec fn lex_le_from(a: Seq<char>, b: Seq<char>, i: int) -> bool
    decreases a.len() - i when 0 <= i <= a.len()
{
    if i < 0 || i >= a.len() {
        true
    } else if i >= b.len() {
        false
    } else if (a[i] as u32) != (b[i] as u32) {
        (a[i] as u32) < (b[i] as u32)
    } else {
        lex_le_from(a, b, i + 1)
    }
}

/// Codepoint order on whole strings.
pub open spec fn lex_le(a: Seq<char>, b: Seq<char>) -> bool {
    lex_le_from(a, b, 0)
}

/// Codepoint order is reflexive.
pub proof fn lemma_lex_le_refl(a: Seq<char>, i: int)
    requires
        0 <= i <= a.len(),
    ensures
        lex_le_from(a, a, i),
    decreases a.len() - i,
{
    if i < a.len() {
        lemma_lex_le_refl(a, i + 1);
    }
}

/// Codepoint order is total.
pub proof fn lemma_lex_le_total(a: Seq<char>, b: Seq<char>, i: int)
    requires
        0 <= i <= a.len(),
        i <= b.len(),
    ensures
        lex_le_from(a, b, i) || lex_le_from(b, a, i),
    decreases a.len() - i,
{
    if i < a.len() && i < b.len() && (a[i] as u32) == (b[i] as u32) {
        lemma_lex_le_total(a, b, i + 1);
    }
}

/// Codepoint order is transitive.
pub proof fn lemma_lex_le_trans(a: Seq<char>, b: Seq<char>, c: Seq<char>, i: int)
    requires
        0 <= i,
        i <= a.len() && i <= b.len() && i <= c.len(),
        lex_le_from(a, b, i),
        lex_le_from(b, c, i),
    ensures
        lex_le_from(a, c, i),
    decreases a.len() - i,
{
    if i < a.len() && i < b.len() && i < c.len() && (a[i] as u32) == (b[i] as u32) && (b[i] as u32)
        == (c[i] as u32) {
        lemma_lex_le_trans(a, b, c, i + 1);
    }
}

/// Whether `a` comes no later than `b` in codepoint order.
pub fn str_le(a: &str, b: &str) -> (r: bool)
    ensures
        r == lex_le(a@, b@),
{
    let an = a.unicode_len();
    let bn = b.unicode_len();
    let mut j: usize = 0;
    loop
        invariant
            0 <= j <= an == a@.len(),
            j <= bn == b@.len(),
            lex_le(a@, b@) == lex_le_from(a@, b@, j as int),
        decreases an - j,
    {
        if j >= an {
            return true;
        }
        if j >= bn {
            return false;
        }
        let ca = a.get_char(j) as u32;
        let cb = b.get_char(j) as u32;
        if ca != cb {
            return ca < cb;
        }
        j = j + 1;
    }
}

/// Numeric value of a decimal digit.
pub open spec fn digit_of(c: char) -> int {
    c as u32 - 48
}

/// Value of a digit sequence read in base ten.
pub open spec fn digits_val(s: Seq<char>) -> int
    decreases s.len(),
{
    if s.len() == 0 {
        0
    } else {
        digits_val(s.drop_last()) * 10 + digit_of(s.last())
    }
}

pub open spec fn all_digits(s: Seq<char>) -> bool {
    forall|i: int| 0 <= i < s.len() ==> is_digit_c(s[i])
}

pub proof fn lemma_digits_val_nonneg(s: Seq<char>)
    requires
        all_digits(s),
    ensures
        digits_val(s) >= 0,
    decreases s.len(),
{
    if s.len() > 0 {
        assert(all_digits(s.drop_last()));
        lemma_digits_val_nonneg(s.drop_last());
    }
}

/// A digit sequence's value is below ten to its length.
pub proof fn lemma_digits_val_bound(s: Seq<char>)
    requires
        all_digits(s),
    ensures
        0 <= digits_val(s) < crate::num::pow10(s.len()),
    decreases s.len(),
{
    if s.len() == 0 {
    } else {
        assert(all_digits(s.drop_last()));
        lemma_digits_val_bound(s.drop_last());
        let v = digits_val(s.drop_last());
        let p = crate::num::pow10((s.len() - 1) as nat) as int;
        assert(crate::num::pow10(s.len()) == 10 * p);
        assert(v * 10 <= (p - 1) * 10) by (nonlinear_arith)
            requires
                v <= p - 1,
        ;
        assert(digit_of(s.last()) <= 9);
    }
}

/// Extending a digit sequence on the right never shrinks its value.
pub proof fn lemma_digits_prefix_le(s: Seq<char>, i: int)
    requires
        all_digits(s),
        0 <= i <= s.len(),
    ensures
        digits_val(s.subrange(0, i)) <= digits_val(s),
    decreases s.len() - i,
{
    if i == s.len() {
        assert(s.subrange(0, i) =~= s);
    } else {
        lemma_digits_prefix_le(s, i + 1);
        let t = s.subrange(0, i);
        let t1 = s.subrange(0, i + 1);
        assert(t1.drop_last() =~= t);
        assert(all_digits(t));
        lemma_digits_val_nonneg(t);
        assert(digits_val(t1) == digits_val(t) * 10 + digit_of(s[i]));
        assert(digits_val(t) * 10 >= digits_val(t) * 1) by (nonlinear_arith)
            requires
                digits_val(t) >= 0,
        ;
    }
}

/// Concatenation shifts the left digits by the right run's length.
pub proof fn lemma_digits_val_append(a: Seq<char>, b: Seq<char>)
    ensures
        digits_val(a + b) == digits_val(a) * crate::num::pow10(b.len()) + digits_val(b),
    decreases b.len(),
{
    if b.len() == 0 {
        assert(a + b =~= a);
        assert(digits_val(a) * crate::num::pow10(0) == digits_val(a) * 1);
    } else {
        let b1 = b.drop_last();
        lemma_digits_val_append(a, b1);
        assert((a + b).drop_last() =~= a + b1);
        assert((a + b).last() == b.last());
        let v = digits_val(a);
        let p1 = crate::num::pow10(b1.len()) as int;
        assert(crate::num::pow10(b.len()) == 10 * p1) by {
            assert(b.len() == b1.len() + 1);
        }
        assert((v * p1 + digits_val(b1)) * 10 + digit_of(b.last()) == v * (10 * p1) + (digits_val(
            b1,
        ) * 10 + digit_of(b.last()))) by (nonlinear_arith);
    }
}

/// Prefix-step unfolding: one more digit multiplies the value by ten.
pub proof fn lemma_digits_val_step(s: Seq<char>, i: int)
    requires
        0 <= i < s.len(),
    ensures
        digits_val(s.subrange(0, i + 1)) == digits_val(s.subrange(0, i)) * 10 + digit_of(s[i]),
{
    let t1 = s.subrange(0, i + 1);
    assert(t1.drop_last() =~= s.subrange(0, i));
    assert(t1.last() == s[i]);
}

} // verus!

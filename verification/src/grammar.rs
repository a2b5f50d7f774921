//! The grammar, stated as specification functions over `Seq<char>`.
//!
//! Each production takes the whole text and a start position and yields
//! `Some((end, value))` when a prefix of the remaining text matches, or
//! `None` when it does not. Matching is deterministic and greedy: runs of
//! whitespace, identifier characters and digits are always consumed to their
//! maximal extent, which is how the executable recognizers behave.

use vstd::prelude::*;

use crate::ir::AssignmentView;
use crate::ir::ModuleView;
use crate::ir::SignalType;
use crate::ir::SignalView;

verus! {

// ---------------------------------------------------------------------------
// Character classes
// ---------------------------------------------------------------------------

/// An ASCII letter, the only characters an identifier may start with.
pub open spec fn is_letter(c: char) -> bool {
    ('a' as u32 <= c as u32 && c as u32 <= 'z' as u32) || ('A' as u32 <= c as u32 && c as u32
        <= 'Z' as u32)
}

/// An ASCII decimal digit.
pub open spec fn is_digit(c: char) -> bool {
    '0' as u32 <= c as u32 && c as u32 <= '9' as u32
}

/// A character that may continue an identifier.
pub open spec fn is_ident_char(c: char) -> bool {
    is_letter(c) || is_digit(c) || c == '_'
}

/// A whitespace character: space, tab, line feed or carriage return.
pub open spec fn is_space(c: char) -> bool {
    c == ' ' || c == '\t' || c == '\n' || c == '\r'
}

/// The numeric value of a decimal digit character.
pub open spec fn digit_val(c: char) -> nat
    recommends
        is_digit(c),
{
    (c as u32 - '0' as u32) as nat
}

// ---------------------------------------------------------------------------
// Maximal runs
// ---------------------------------------------------------------------------

/// The first position at or after `i` that does not hold whitespace.
pub open spec fn skip_ws(s: Seq<char>, i: int) -> int
    recommends
        0 <= i <= s.len(),
    decreases s.len() - i,
{
    if i < s.len() && is_space(s[i]) {
        skip_ws(s, i + 1)
    } else {
        i
    }
}

/// The end of the run of identifier characters starting at `i`.
pub open spec fn ident_end(s: Seq<char>, i: int) -> int
    recommends
        0 <= i <= s.len(),
    decreases s.len() - i,
{
    if i < s.len() && is_ident_char(s[i]) {
        ident_end(s, i + 1)
    } else {
        i
    }
}

/// The end of the run of decimal digits starting at `i`.
pub open spec fn digits_end(s: Seq<char>, i: int) -> int
    recommends
        0 <= i <= s.len(),
    decreases s.len() - i,
{
    if i < s.len() && is_digit(s[i]) {
        digits_end(s, i + 1)
    } else {
        i
    }
}

/// The value of a sequence of decimal digits, most significant first.
pub open spec fn digits_val(ds: Seq<char>) -> nat
    decreases ds.len(),
{
    if ds.len() == 0 {
        0
    } else {
        digits_val(ds.drop_last()) * 10 + digit_val(ds.last())
    }
}

// ---------------------------------------------------------------------------
// Keywords and fixed sequences
// ---------------------------------------------------------------------------

/// `lit` occurs in `s` starting exactly at position `i`.
pub open spec fn lit_at(s: Seq<char>, i: int, lit: Seq<char>) -> bool {
    0 <= i && i + lit.len() <= s.len() && s.subrange(i, i + lit.len()) == lit
}

pub open spec fn kw_module() -> Seq<char> {
    seq!['m', 'o', 'd', 'u', 'l', 'e']
}

pub open spec fn kw_input() -> Seq<char> {
    seq!['i', 'n', 'p', 'u', 't']
}

pub open spec fn kw_output() -> Seq<char> {
    seq!['o', 'u', 't', 'p', 'u', 't']
}

pub open spec fn kw_reg() -> Seq<char> {
    seq!['r', 'e', 'g']
}

/// The separator an assignment's right-hand side is rebuilt with.
pub open spec fn plus_sep() -> Seq<char> {
    seq![' ', '+', ' ']
}

/// The keyword that declares a signal of the given type.
pub open spec fn keyword_of(st: SignalType) -> Seq<char> {
    match st {
        SignalType::Input => kw_input(),
        SignalType::Output => kw_output(),
        SignalType::Reg => kw_reg(),
    }
}

// ---------------------------------------------------------------------------
// Well-formedness of parsed values
// ---------------------------------------------------------------------------

/// A sequence consisting of whitespace alone (possibly empty).
pub open spec fn all_spaces(w: Seq<char>) -> bool {
    forall|k: int| 0 <= k < w.len() ==> is_space(#[trigger] w[k])
}

/// A valid identifier: non-empty, starts with a letter, continues with
/// letters, digits or underscores.
pub open spec fn valid_ident(s: Seq<char>) -> bool {
    &&& s.len() > 0
    &&& is_letter(s[0])
    &&& forall|k: int| 0 <= k < s.len() ==> is_ident_char(#[trigger] s[k])
}

pub open spec fn wf_signal(v: SignalView) -> bool {
    valid_ident(v.name)
}

/// A well-formed assignment: the target is an identifier and the right-hand
/// side is two identifiers joined by the canonical `" + "` separator.
pub open spec fn wf_assignment(v: AssignmentView) -> bool {
    &&& valid_ident(v.lhs)
    &&& exists|a: Seq<char>, b: Seq<char>|
        v.rhs == #[trigger] (a + plus_sep() + b) && valid_ident(a) && valid_ident(b)
}

pub open spec fn wf_module(v: ModuleView) -> bool {
    &&& valid_ident(v.name)
    &&& forall|k: int| 0 <= k < v.signals.len() ==> wf_signal(#[trigger] v.signals[k])
    &&& forall|k: int| 0 <= k < v.assignments.len() ==> wf_assignment(#[trigger] v.assignments[k])
}

// ---------------------------------------------------------------------------
// Productions
// ---------------------------------------------------------------------------

/// `ident := letter (letter | digit | '_')*`, greedy.
pub open spec fn ident_at(s: Seq<char>, i: int) -> Option<(int, Seq<char>)>
    recommends
        0 <= i <= s.len(),
{
    if i < s.len() && is_letter(s[i]) {
        let j = ident_end(s, i);
        Some((j, s.subrange(i, j)))
    } else {
        None
    }
}

/// `sig_type := 'input' | 'output' | 'reg'`, after optional whitespace.
pub open spec fn signal_type_at(s: Seq<char>, i: int) -> Option<(int, SignalType)>
    recommends
        0 <= i <= s.len(),
{
    let j = skip_ws(s, i);
    if lit_at(s, j, kw_input()) {
        Some((j + kw_input().len(), SignalType::Input))
    } else if lit_at(s, j, kw_output()) {
        Some((j + kw_output().len(), SignalType::Output))
    } else if lit_at(s, j, kw_reg()) {
        Some((j + kw_reg().len(), SignalType::Reg))
    } else {
        None
    }
}

/// The width annotation `: u<digits>`, with optional whitespace before the
/// colon and between the colon and the `u`. The digits are taken greedily;
/// a value above 255 is rejected rather than truncated.
pub open spec fn width_at(s: Seq<char>, i: int) -> Option<(int, u8)>
    recommends
        0 <= i <= s.len(),
{
    let j = skip_ws(s, i);
    if j < s.len() && s[j] == ':' {
        let k = skip_ws(s, j + 1);
        if k < s.len() && s[k] == 'u' {
            let e = digits_end(s, k + 1);
            if e > k + 1 && digits_val(s.subrange(k + 1, e)) <= 255 {
                Some((e, digits_val(s.subrange(k + 1, e)) as u8))
            } else {
                None
            }
        } else {
            None
        }
    } else {
        None
    }
}

/// `decl := sig_type ws1 ident width ws ';'`: a full signal declaration,
/// with mandatory whitespace after the keyword and optional whitespace
/// before the semicolon.
pub open spec fn decl_at(s: Seq<char>, i: int) -> Option<(int, SignalView)>
    recommends
        0 <= i <= s.len(),
{
    match signal_type_at(s, i) {
        Some((j, st)) => if j < s.len() && is_space(s[j]) {
            let k = skip_ws(s, j);
            match ident_at(s, k) {
                Some((m, name)) => match width_at(s, m) {
                    Some((p, w)) => {
                        let q = skip_ws(s, p);
                        if q < s.len() && s[q] == ';' {
                            Some((q + 1, SignalView { name, sig_type: st, width: w }))
                        } else {
                            None
                        }
                    },
                    None => None,
                },
                None => None,
            }
        } else {
            None
        },
        None => None,
    }
}

/// `assign := ident '=' ident '+' ident ';'`, whitespace-tolerant between
/// every pair of tokens. The right-hand side of the produced assignment is
/// the two operand names joined by [`plus_sep`], whatever spacing the
/// source used.
pub open spec fn assign_at(s: Seq<char>, i: int) -> Option<(int, AssignmentView)>
    recommends
        0 <= i <= s.len(),
{
    match ident_at(s, skip_ws(s, i)) {
        Some((j1, lhs)) => {
            let j2 = skip_ws(s, j1);
            if j2 < s.len() && s[j2] == '=' {
                match ident_at(s, skip_ws(s, j2 + 1)) {
                    Some((j4, op1)) => {
                        let j5 = skip_ws(s, j4);
                        if j5 < s.len() && s[j5] == '+' {
                            match ident_at(s, skip_ws(s, j5 + 1)) {
                                Some((j7, op2)) => {
                                    let j8 = skip_ws(s, j7);
                                    if j8 < s.len() && s[j8] == ';' {
                                        Some(
                                            (
                                                j8 + 1,
                                                AssignmentView {
                                                    lhs,
                                                    rhs: op1 + plus_sep() + op2,
                                                },
                                            ),
                                        )
                                    } else {
                                        None
                                    }
                                },
                                None => None,
                            }
                        } else {
                            None
                        }
                    },
                    None => None,
                }
            } else {
                None
            }
        },
        None => None,
    }
}

/// Zero or more declarations, each with trailing whitespace consumed.
/// Stops, without consuming anything of the failed attempt, at the first
/// position where no declaration matches.
pub open spec fn decl_list_at(s: Seq<char>, i: int) -> (int, Seq<SignalView>)
    recommends
        0 <= i <= s.len(),
    decreases s.len() - i,
{
    match decl_at(s, i) {
        Some((j, sig)) => {
            let k = skip_ws(s, j);
            if i < k <= s.len() {
                let (e, rest) = decl_list_at(s, k);
                (e, seq![sig] + rest)
            } else {
                (i, Seq::empty())
            }
        },
        None => (i, Seq::empty()),
    }
}

/// Zero or more assignments, each with trailing whitespace consumed.
pub open spec fn assign_list_at(s: Seq<char>, i: int) -> (int, Seq<AssignmentView>)
    recommends
        0 <= i <= s.len(),
    decreases s.len() - i,
{
    match assign_at(s, i) {
        Some((j, a)) => {
            let k = skip_ws(s, j);
            if i < k <= s.len() {
                let (e, rest) = assign_list_at(s, k);
                (e, seq![a] + rest)
            } else {
                (i, Seq::empty())
            }
        },
        None => (i, Seq::empty()),
    }
}

/// The whole grammar: `ws 'module' ws1 ident ws '{' decl* assign* '}'`.
/// All declarations precede all assignments; once a declaration fails to
/// match, only assignments are attempted. Text after the closing brace is
/// ignored.
pub open spec fn module_of(s: Seq<char>) -> Option<ModuleView> {
    let i1 = skip_ws(s, 0);
    if lit_at(s, i1, kw_module()) {
        let i2 = i1 + kw_module().len();
        if i2 < s.len() && is_space(s[i2]) {
            match ident_at(s, skip_ws(s, i2)) {
                Some((i4, name)) => {
                    let i5 = skip_ws(s, i4);
                    if i5 < s.len() && s[i5] == '{' {
                        let (i6, sigs) = decl_list_at(s, i5 + 1);
                        let (i7, assigns) = assign_list_at(s, i6);
                        if i7 < s.len() && s[i7] == '}' {
                            Some(ModuleView { name, signals: sigs, assignments: assigns })
                        } else {
                            None
                        }
                    } else {
                        None
                    }
                },
                None => None,
            }
        } else {
            None
        }
    } else {
        None
    }
}

// ---------------------------------------------------------------------------
// Characterizations of the maximal runs
// ---------------------------------------------------------------------------

/// `skip_ws` lands on the first non-whitespace position and skips only
/// whitespace.
pub proof fn lemma_skip_ws(s: Seq<char>, i: int)
    requires
        0 <= i <= s.len(),
    ensures
        i <= skip_ws(s, i) <= s.len(),
        skip_ws(s, i) == s.len() || !is_space(s[skip_ws(s, i)]),
        forall|k: int| i <= k < skip_ws(s, i) ==> is_space(#[trigger] s[k]),
    decreases s.len() - i,
{
    if i < s.len() && is_space(s[i]) {
        lemma_skip_ws(s, i + 1);
    }
}

/// Conversely, a run of whitespace ending at a non-whitespace boundary is
/// exactly what `skip_ws` skips.
pub proof fn lemma_skip_ws_exact(s: Seq<char>, i: int, j: int)
    requires
        0 <= i <= j <= s.len(),
        forall|k: int| i <= k < j ==> is_space(#[trigger] s[k]),
        j == s.len() || !is_space(s[j]),
    ensures
        skip_ws(s, i) == j,
    decreases j - i,
{
    if i < j {
        lemma_skip_ws_exact(s, i + 1, j);
    }
}

/// `ident_end` lands on the first position that cannot continue an
/// identifier, and everything before it can.
pub proof fn lemma_ident_end(s: Seq<char>, i: int)
    requires
        0 <= i <= s.len(),
    ensures
        i <= ident_end(s, i) <= s.len(),
        ident_end(s, i) == s.len() || !is_ident_char(s[ident_end(s, i)]),
        forall|k: int| i <= k < ident_end(s, i) ==> is_ident_char(#[trigger] s[k]),
    decreases s.len() - i,
{
    if i < s.len() && is_ident_char(s[i]) {
        lemma_ident_end(s, i + 1);
    }
}

/// Conversely, a run of identifier characters ending at a boundary is
/// exactly what `ident_end` consumes.
pub proof fn lemma_ident_end_exact(s: Seq<char>, i: int, j: int)
    requires
        0 <= i <= j <= s.len(),
        forall|k: int| i <= k < j ==> is_ident_char(#[trigger] s[k]),
        j == s.len() || !is_ident_char(s[j]),
    ensures
        ident_end(s, i) == j,
    decreases j - i,
{
    if i < j {
        lemma_ident_end_exact(s, i + 1, j);
    }
}

/// `digits_end` lands on the first non-digit position.
pub proof fn lemma_digits_end(s: Seq<char>, i: int)
    requires
        0 <= i <= s.len(),
    ensures
        i <= digits_end(s, i) <= s.len(),
        digits_end(s, i) == s.len() || !is_digit(s[digits_end(s, i)]),
        forall|k: int| i <= k < digits_end(s, i) ==> is_digit(#[trigger] s[k]),
    decreases s.len() - i,
{
    if i < s.len() && is_digit(s[i]) {
        lemma_digits_end(s, i + 1);
    }
}

/// Conversely, a run of digits ending at a non-digit boundary is exactly
/// what `digits_end` consumes.
pub proof fn lemma_digits_end_exact(s: Seq<char>, i: int, j: int)
    requires
        0 <= i <= j <= s.len(),
        forall|k: int| i <= k < j ==> is_digit(#[trigger] s[k]),
        j == s.len() || !is_digit(s[j]),
    ensures
        digits_end(s, i) == j,
    decreases j - i,
{
    if i < j {
        lemma_digits_end_exact(s, i + 1, j);
    }
}

/// An identifier parsed from the text is a valid identifier and consumes a
/// non-empty span.
pub proof fn lemma_ident_at(s: Seq<char>, i: int)
    requires
        0 <= i <= s.len(),
        ident_at(s, i) is Some,
    ensures
        ({
            let (j, name) = ident_at(s, i)->0;
            &&& i < j <= s.len()
            &&& name == s.subrange(i, j)
            &&& valid_ident(name)
            &&& j == s.len() || !is_ident_char(s[j])
        }),
{
    lemma_ident_end(s, i);
    let j = ident_end(s, i);
    assert(is_ident_char(s[i]));
    assert(ident_end(s, i) == ident_end(s, i + 1));
    lemma_ident_end(s, i + 1);
    let name = s.subrange(i, j);
    assert(forall|k: int| 0 <= k < name.len() ==> name[k] == s[i + k]);
    assert(valid_ident(name));
}

} // verus!

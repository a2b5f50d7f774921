//! General facts about the grammar, proved once and for all inputs.
//!
//! Together with the contract of [`crate::parser::parse_module`] — which
//! pins the parser's result to [`crate::grammar::module_of`] exactly — these
//! laws carry over to every run of the executable parser.

use vstd::prelude::*;

use crate::grammar::all_spaces;
use crate::grammar::assign_at;
use crate::grammar::assign_list_at;
use crate::grammar::decl_at;
use crate::grammar::decl_list_at;
use crate::grammar::digits_val;
use crate::grammar::ident_at;
use crate::grammar::is_digit;
use crate::grammar::is_space;
use crate::grammar::keyword_of;
use crate::grammar::kw_input;
use crate::grammar::kw_module;
use crate::grammar::kw_output;
use crate::grammar::kw_reg;
use crate::grammar::lemma_digits_end_exact;
use crate::grammar::lemma_ident_at;
use crate::grammar::lemma_ident_end_exact;
use crate::grammar::lemma_skip_ws;
use crate::grammar::lemma_skip_ws_exact;
use crate::grammar::lit_at;
use crate::grammar::module_of;
use crate::grammar::plus_sep;
use crate::grammar::signal_type_at;
use crate::grammar::skip_ws;
use crate::grammar::valid_ident;
use crate::grammar::wf_assignment;
use crate::grammar::wf_module;
use crate::grammar::wf_signal;
use crate::grammar::width_at;
use crate::ir::AssignmentView;
use crate::ir::SignalType;

verus! {

/// A matched signal type ends after its keyword, strictly beyond where it
/// started and within the text.
pub proof fn lemma_signal_type_at(s: Seq<char>, i: int)
    requires
        0 <= i <= s.len(),
        signal_type_at(s, i) is Some,
    ensures
        ({
            let (j, st) = signal_type_at(s, i)->0;
            i < j <= s.len()
        }),
{
    lemma_skip_ws(s, i);
}

/// A matched width annotation ends strictly beyond where it started,
/// within the text, and its value is at most 255.
pub proof fn lemma_width_at(s: Seq<char>, i: int)
    requires
        0 <= i <= s.len(),
        width_at(s, i) is Some,
    ensures
        ({
            let (j, w) = width_at(s, i)->0;
            i < j <= s.len() && w <= 255
        }),
{
    lemma_skip_ws(s, i);
    let j = skip_ws(s, i);
    lemma_skip_ws(s, j + 1);
    let k = skip_ws(s, j + 1);
    crate::grammar::lemma_digits_end(s, k + 1);
}

/// A matched declaration consumes a non-empty span that stays within the
/// text, and the signal it produces is well-formed.
pub proof fn lemma_decl_at(s: Seq<char>, i: int)
    requires
        0 <= i <= s.len(),
        decl_at(s, i) is Some,
    ensures
        ({
            let (j, sig) = decl_at(s, i)->0;
            i < j <= s.len() && wf_signal(sig)
        }),
{
    lemma_signal_type_at(s, i);
    let (j, st) = signal_type_at(s, i)->0;
    lemma_skip_ws(s, j);
    let k = skip_ws(s, j);
    lemma_ident_at(s, k);
    let (m, name) = ident_at(s, k)->0;
    lemma_width_at(s, m);
    let (p, w) = width_at(s, m)->0;
    lemma_skip_ws(s, p);
}

/// A matched assignment consumes a non-empty span that stays within the
/// text, and the assignment it produces is well-formed: in particular its
/// right-hand side is two identifiers joined by the canonical `" + "`.
pub proof fn lemma_assign_at(s: Seq<char>, i: int)
    requires
        0 <= i <= s.len(),
        assign_at(s, i) is Some,
    ensures
        ({
            let (j, a) = assign_at(s, i)->0;
            i < j <= s.len() && wf_assignment(a)
        }),
{
    lemma_skip_ws(s, i);
    lemma_ident_at(s, skip_ws(s, i));
    let (j1, lhs) = ident_at(s, skip_ws(s, i))->0;
    let j2 = skip_ws(s, j1);
    lemma_skip_ws(s, j1);
    lemma_skip_ws(s, j2 + 1);
    lemma_ident_at(s, skip_ws(s, j2 + 1));
    let (j4, op1) = ident_at(s, skip_ws(s, j2 + 1))->0;
    let j5 = skip_ws(s, j4);
    lemma_skip_ws(s, j4);
    lemma_skip_ws(s, j5 + 1);
    lemma_ident_at(s, skip_ws(s, j5 + 1));
    let (j7, op2) = ident_at(s, skip_ws(s, j5 + 1))->0;
    lemma_skip_ws(s, j7);
    let (j, a) = assign_at(s, i)->0;
    assert(a.rhs == op1 + plus_sep() + op2 && valid_ident(op1) && valid_ident(op2));
}

/// The declaration list never leaves the text and yields only well-formed
/// signals.
pub proof fn lemma_decl_list_at(s: Seq<char>, i: int)
    requires
        0 <= i <= s.len(),
    ensures
        i <= decl_list_at(s, i).0 <= s.len(),
        forall|k: int|
            0 <= k < decl_list_at(s, i).1.len() ==> wf_signal(#[trigger] decl_list_at(s, i).1[k]),
    decreases s.len() - i,
{
    if decl_at(s, i) is Some {
        lemma_decl_at(s, i);
        let (j, sig) = decl_at(s, i)->0;
        lemma_skip_ws(s, j);
        let k = skip_ws(s, j);
        if i < k <= s.len() {
            lemma_decl_list_at(s, k);
        }
    }
}

/// The assignment list never leaves the text and yields only well-formed
/// assignments.
pub proof fn lemma_assign_list_at(s: Seq<char>, i: int)
    requires
        0 <= i <= s.len(),
    ensures
        i <= assign_list_at(s, i).0 <= s.len(),
        forall|k: int|
            0 <= k < assign_list_at(s, i).1.len() ==> wf_assignment(
                #[trigger] assign_list_at(s, i).1[k],
            ),
    decreases s.len() - i,
{
    if assign_at(s, i) is Some {
        lemma_assign_at(s, i);
        let (j, a) = assign_at(s, i)->0;
        lemma_skip_ws(s, j);
        let k = skip_ws(s, j);
        if i < k <= s.len() {
            lemma_assign_list_at(s, k);
        }
    }
}

/// Law: every module the grammar accepts is well-formed — its name and all
/// declared names are identifiers, every width fits in 8 bits, and every
/// assignment's right-hand side is two identifiers joined by `" + "`.
pub proof fn lemma_module_wf(s: Seq<char>)
    requires
        module_of(s) is Some,
    ensures
        wf_module(module_of(s)->0),
{
    lemma_skip_ws(s, 0);
    let i1 = skip_ws(s, 0);
    let i2 = i1 + kw_module().len();
    lemma_skip_ws(s, i2);
    lemma_ident_at(s, skip_ws(s, i2));
    let (i4, name) = ident_at(s, skip_ws(s, i2))->0;
    lemma_skip_ws(s, i4);
    let i5 = skip_ws(s, i4);
    lemma_decl_list_at(s, i5 + 1);
    let i6 = decl_list_at(s, i5 + 1).0;
    lemma_assign_list_at(s, i6);
}

/// Law: the width annotation recovers exactly the decimal value of the
/// digit run after the `u`, for every value up to 255, and rejects every
/// larger value outright rather than truncating it.
pub proof fn lemma_width_recovers_literal(s: Seq<char>, i: int, e: int)
    requires
        0 <= i,
        i + 2 < e <= s.len(),
        s[i] == ':',
        s[i + 1] == 'u',
        forall|k: int| i + 2 <= k < e ==> is_digit(#[trigger] s[k]),
        e == s.len() || !is_digit(s[e]),
    ensures
        digits_val(s.subrange(i + 2, e)) <= 255 ==> width_at(s, i) == Some(
            (e, digits_val(s.subrange(i + 2, e)) as u8),
        ),
        digits_val(s.subrange(i + 2, e)) > 255 ==> width_at(s, i) is None,
{
    assert(!is_space(s[i]));
    assert(skip_ws(s, i) == i);
    assert(!is_space(s[i + 1]));
    assert(skip_ws(s, i + 1) == i + 1);
    lemma_digits_end_exact(s, i + 2, e);
}

/// Law: the parts an assignment recovers do not depend on the whitespace
/// in the source. Whatever whitespace — including none — stands around the
/// five tokens, the parsed left-hand side is the first identifier and the
/// right-hand side is the two operands joined by the canonical `" + "`.
pub proof fn lemma_assignment_whitespace_insensitive(
    w0: Seq<char>,
    lhs: Seq<char>,
    w1: Seq<char>,
    w2: Seq<char>,
    op1: Seq<char>,
    w3: Seq<char>,
    w4: Seq<char>,
    op2: Seq<char>,
    w5: Seq<char>,
)
    requires
        all_spaces(w0),
        all_spaces(w1),
        all_spaces(w2),
        all_spaces(w3),
        all_spaces(w4),
        all_spaces(w5),
        valid_ident(lhs),
        valid_ident(op1),
        valid_ident(op2),
    ensures
        ({
            let s = w0 + lhs + w1 + seq!['='] + w2 + op1 + w3 + seq!['+'] + w4 + op2 + w5
                + seq![';'];
            assign_at(s, 0) == Some(
                (s.len() as int, AssignmentView { lhs, rhs: op1 + plus_sep() + op2 }),
            )
        }),
{
    let s = w0 + lhs + w1 + seq!['='] + w2 + op1 + w3 + seq!['+'] + w4 + op2 + w5 + seq![';'];
    let p1 = w0.len() as int;
    let p2 = p1 + lhs.len();
    let p3 = p2 + w1.len();
    let p4 = p3 + 1 + w2.len();
    let p5 = p4 + op1.len();
    let p6 = p5 + w3.len();
    let p7 = p6 + 1 + w4.len();
    let p8 = p7 + op2.len();
    let p9 = p8 + w5.len();
    assert(s.len() == p9 + 1);
    assert(forall|k: int| 0 <= k < w0.len() ==> s[k] == w0[k]);
    assert(forall|k: int| 0 <= k < lhs.len() ==> s[p1 + k] == lhs[k]);
    assert(forall|k: int| 0 <= k < w1.len() ==> s[p2 + k] == w1[k]);
    assert(s[p3] == '=');
    assert(forall|k: int| 0 <= k < w2.len() ==> s[p3 + 1 + k] == w2[k]);
    assert(forall|k: int| 0 <= k < op1.len() ==> s[p4 + k] == op1[k]);
    assert(forall|k: int| 0 <= k < w3.len() ==> s[p5 + k] == w3[k]);
    assert(s[p6] == '+');
    assert(forall|k: int| 0 <= k < w4.len() ==> s[p6 + 1 + k] == w4[k]);
    assert(forall|k: int| 0 <= k < op2.len() ==> s[p7 + k] == op2[k]);
    assert(forall|k: int| 0 <= k < w5.len() ==> s[p8 + k] == w5[k]);
    assert(s[p9] == ';');
    // the leading whitespace ends at the left-hand side's first letter
    assert(!is_space(s[p1]));
    lemma_skip_ws_exact(s, 0, p1);
    // the left-hand side is the maximal identifier run from p1
    assert(w1.len() > 0 ==> s[p2] == w1[0]);
    assert(w1.len() == 0 ==> s[p2] == '=');
    assert(!crate::grammar::is_ident_char(s[p2]));
    lemma_ident_end_exact(s, p1, p2);
    assert(s.subrange(p1, p2) =~= lhs);
    // whitespace up to the equals sign
    assert(!is_space(s[p3]));
    lemma_skip_ws_exact(s, p2, p3);
    // whitespace after it ends at the first operand
    assert(!is_space(s[p4]));
    lemma_skip_ws_exact(s, p3 + 1, p4);
    // the first operand is the maximal identifier run from p4
    assert(w3.len() > 0 ==> s[p5] == w3[0]);
    assert(w3.len() == 0 ==> s[p5] == '+');
    assert(!crate::grammar::is_ident_char(s[p5]));
    lemma_ident_end_exact(s, p4, p5);
    assert(s.subrange(p4, p5) =~= op1);
    // whitespace up to the plus sign
    assert(!is_space(s[p6]));
    lemma_skip_ws_exact(s, p5, p6);
    // whitespace after it ends at the second operand
    assert(!is_space(s[p7]));
    lemma_skip_ws_exact(s, p6 + 1, p7);
    // the second operand is the maximal identifier run from p7
    assert(w5.len() > 0 ==> s[p8] == w5[0]);
    assert(w5.len() == 0 ==> s[p8] == ';');
    assert(!crate::grammar::is_ident_char(s[p8]));
    lemma_ident_end_exact(s, p7, p8);
    assert(s.subrange(p7, p8) =~= op2);
    // whitespace up to the semicolon
    assert(!is_space(s[p9]));
    lemma_skip_ws_exact(s, p8, p9);
    assert(assign_at(s, 0) == Some(
        (p9 + 1, AssignmentView { lhs, rhs: op1 + plus_sep() + op2 }),
    ));
}

/// Law: a declaration recovers its parts — signal type, name and width —
/// independent of the whitespace in the source. Whatever whitespace stands
/// between the tokens (the run after the keyword must be non-empty, the
/// others may be empty), the parsed signal carries the declared name, the
/// type of the keyword, and exactly the decimal value of the digit run.
#[verifier::rlimit(60)]
pub proof fn lemma_decl_whitespace_insensitive(
    w0: Seq<char>,
    st: SignalType,
    w1: Seq<char>,
    name: Seq<char>,
    w2: Seq<char>,
    w3: Seq<char>,
    ds: Seq<char>,
    w4: Seq<char>,
)
    requires
        all_spaces(w0),
        all_spaces(w1),
        w1.len() > 0,
        all_spaces(w2),
        all_spaces(w3),
        all_spaces(w4),
        valid_ident(name),
        ds.len() > 0,
        forall|k: int| 0 <= k < ds.len() ==> is_digit(#[trigger] ds[k]),
        digits_val(ds) <= 255,
    ensures
        ({
            let kw = keyword_of(st);
            let s = w0 + kw + w1 + name + w2 + seq![':'] + w3 + seq!['u'] + ds + w4 + seq![';'];
            decl_at(s, 0) == Some(
                (
                    s.len() as int,
                    crate::ir::SignalView { name, sig_type: st, width: digits_val(ds) as u8 },
                ),
            )
        }),
{
    let kw = keyword_of(st);
    let s = w0 + kw + w1 + name + w2 + seq![':'] + w3 + seq!['u'] + ds + w4 + seq![';'];
    let p1 = w0.len() as int;
    let p2 = p1 + kw.len();
    let p3 = p2 + w1.len();
    let p4 = p3 + name.len();
    let p5 = p4 + w2.len();
    let p6 = p5 + 1 + w3.len();
    let p7 = p6 + 1;
    let p8 = p7 + ds.len();
    let p9 = p8 + w4.len();
    assert(s.len() == p9 + 1);
    assert(forall|k: int| 0 <= k < w0.len() ==> s[k] == w0[k]);
    assert(forall|k: int| 0 <= k < kw.len() ==> s[p1 + k] == kw[k]);
    assert(forall|k: int| 0 <= k < w1.len() ==> s[p2 + k] == w1[k]);
    assert(forall|k: int| 0 <= k < name.len() ==> s[p3 + k] == name[k]);
    assert(forall|k: int| 0 <= k < w2.len() ==> s[p5 - w2.len() + k] == w2[k]);
    assert(s[p5] == ':');
    assert(forall|k: int| 0 <= k < w3.len() ==> s[p5 + 1 + k] == w3[k]);
    assert(s[p6] == 'u');
    assert(forall|k: int| 0 <= k < ds.len() ==> s[p7 + k] == ds[k]);
    assert(forall|k: int| 0 <= k < w4.len() ==> s[p8 + k] == w4[k]);
    assert(s[p9] == ';');
    // the leading whitespace ends at the keyword's first letter
    assert(s[p1] == kw[0]);
    assert(crate::grammar::is_letter(kw[0]));
    lemma_skip_ws_exact(s, 0, p1);
    // the keyword at p1 selects exactly the declared signal type; the three
    // keywords differ already in their first character
    assert(s.subrange(p1, p1 + kw.len()) =~= kw);
    if st == SignalType::Output {
        assert(!lit_at(s, p1, kw_input())) by {
            if lit_at(s, p1, kw_input()) {
                assert(s.subrange(p1, p1 + kw_input().len())[0] == 'i');
            }
        }
    }
    if st == SignalType::Reg {
        assert(!lit_at(s, p1, kw_input())) by {
            if lit_at(s, p1, kw_input()) {
                assert(s.subrange(p1, p1 + kw_input().len())[0] == 'i');
            }
        }
        assert(!lit_at(s, p1, kw_output())) by {
            if lit_at(s, p1, kw_output()) {
                assert(s.subrange(p1, p1 + kw_output().len())[0] == 'o');
            }
        }
    }
    assert(signal_type_at(s, 0) == Some((p2, st)));
    // the mandatory whitespace after the keyword ends at the name
    assert(is_space(s[p2]));
    assert(s[p3] == name[0]);
    lemma_skip_ws_exact(s, p2, p3);
    // the name is the maximal identifier run from p3
    assert(w2.len() > 0 ==> s[p4] == w2[0]);
    assert(w2.len() == 0 ==> s[p4] == ':');
    assert(!crate::grammar::is_ident_char(s[p4]));
    lemma_ident_end_exact(s, p3, p4);
    assert(s.subrange(p3, p4) =~= name);
    // whitespace up to the colon, then up to the `u`
    assert(!is_space(s[p5]));
    lemma_skip_ws_exact(s, p4, p5);
    assert(!is_space(s[p6]));
    lemma_skip_ws_exact(s, p5 + 1, p6);
    // the digits are the maximal digit run from p7
    assert(w4.len() > 0 ==> s[p8] == w4[0]);
    assert(w4.len() == 0 ==> s[p8] == ';');
    assert(!is_digit(s[p8]));
    lemma_digits_end_exact(s, p7, p8);
    assert(s.subrange(p7, p8) =~= ds);
    assert(width_at(s, p4) == Some((p8, digits_val(ds) as u8)));
    // whitespace up to the closing semicolon
    assert(!is_space(s[p9]));
    lemma_skip_ws_exact(s, p8, p9);
    assert(decl_at(s, 0) == Some(
        (p9 + 1, crate::ir::SignalView { name, sig_type: st, width: digits_val(ds) as u8 }),
    ));
}

/// Law: repetition preserves source order. When a declaration stands at
/// `i`, it is the first element of the declaration list parsed from `i`,
/// and the rest is the list parsed from just after it.
pub proof fn lemma_decl_list_head(s: Seq<char>, i: int)
    requires
        0 <= i <= s.len(),
        decl_at(s, i) is Some,
    ensures
        ({
            let (j, sig) = decl_at(s, i)->0;
            let k = skip_ws(s, j);
            decl_list_at(s, i) == (decl_list_at(s, k).0, seq![sig] + decl_list_at(s, k).1)
        }),
{
    lemma_decl_at(s, i);
    let (j, sig) = decl_at(s, i)->0;
    lemma_skip_ws(s, j);
}

/// Law: repetition preserves source order, assignment form.
pub proof fn lemma_assign_list_head(s: Seq<char>, i: int)
    requires
        0 <= i <= s.len(),
        assign_at(s, i) is Some,
    ensures
        ({
            let (j, a) = assign_at(s, i)->0;
            let k = skip_ws(s, j);
            assign_list_at(s, i) == (assign_list_at(s, k).0, seq![a] + assign_list_at(s, k).1)
        }),
{
    lemma_assign_at(s, i);
    let (j, a) = assign_at(s, i)->0;
    lemma_skip_ws(s, j);
}

/// Law: a declaration is never consumed as an assignment. Once the parser
/// has switched from declarations to assignments, a further declaration in
/// the text stops the assignment list without being consumed; the text is
/// then rejected at the closing-brace check unless the declaration stands
/// after the brace, where it is ignored as trailing text.
pub proof fn lemma_decl_never_assign(s: Seq<char>, i: int)
    requires
        0 <= i <= s.len(),
        decl_at(s, i) is Some,
    ensures
        assign_at(s, i) is None,
{
    lemma_skip_ws(s, i);
    let j0 = skip_ws(s, i);
    let kw = if lit_at(s, j0, kw_input()) {
        kw_input()
    } else if lit_at(s, j0, kw_output()) {
        kw_output()
    } else {
        kw_reg()
    };
    assert(lit_at(s, j0, kw));
    let (j, st) = signal_type_at(s, i)->0;
    assert(j == j0 + kw.len());
    // the keyword's characters are letters, so the assignment's leading
    // identifier is exactly the keyword
    assert(forall|t: int|
        0 <= t < kw.len() ==> crate::grammar::is_ident_char(#[trigger] kw[t]));
    assert(forall|t: int| 0 <= t < kw.len() ==> s[j0 + t] == kw[t]) by {
        assert(forall|t: int|
            0 <= t < kw.len() ==> s.subrange(j0, j0 + kw.len())[t] == #[trigger] s[j0 + t]);
    }
    assert(is_space(s[j]));
    lemma_ident_end_exact(s, j0, j);
    // after the keyword and the following whitespace stands the declared
    // name, a letter — never the `=` an assignment requires next
    let k = skip_ws(s, j);
    lemma_skip_ws(s, j);
    lemma_ident_at(s, k);
    assert(ident_at(s, j0) is Some);
    let (je, lead) = ident_at(s, j0)->0;
    assert(je == j);
    assert(skip_ws(s, je) == k);
    assert(crate::grammar::is_letter(s[k]));
    assert(s[k] != '=');
}

/// Law: a text that holds no closing brace at all is never accepted.
pub proof fn lemma_missing_close_brace(s: Seq<char>)
    requires
        forall|k: int| 0 <= k < s.len() ==> #[trigger] s[k] != '}',
    ensures
        module_of(s) is None,
{
    if module_of(s) is Some {
        lemma_skip_ws(s, 0);
        let i1 = skip_ws(s, 0);
        let i2 = i1 + kw_module().len();
        lemma_skip_ws(s, i2);
        lemma_ident_at(s, skip_ws(s, i2));
        let (i4, name) = ident_at(s, skip_ws(s, i2))->0;
        lemma_skip_ws(s, i4);
        let i5 = skip_ws(s, i4);
        lemma_decl_list_at(s, i5 + 1);
        let i6 = decl_list_at(s, i5 + 1).0;
        lemma_assign_list_at(s, i6);
        let i7 = assign_list_at(s, i6).0;
        assert(s[i7] == '}');
        assert(false);
    }
}

} // verus!

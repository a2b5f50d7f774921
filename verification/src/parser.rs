//! The executable recognizers. Each one is proved to return exactly what
//! the corresponding production in [`crate::grammar`] assigns to its input.
//!
//! Every recognizer takes the whole text and the position to start at, and
//! returns the position of the first unconsumed character together with the
//! recognized value, or `None` when the text does not match.

use vstd::prelude::*;
use vstd::string::StrSliceExecFns;
use vstd::string::StringExecFns;

use crate::grammar;
use crate::ir::Assignment;
use crate::ir::Module;
use crate::ir::ParseError;
use crate::ir::Signal;
use crate::ir::SignalType;

verus! {

/// Whether `c` may continue an identifier: an ASCII letter, digit or
/// underscore.
pub fn is_identifier_char(c: char) -> (b: bool)
    ensures
        b == grammar::is_ident_char(c),
{
    is_letter_char(c) || is_digit_char(c) || c == '_'
}

/// Whether `c` may start an identifier: an ASCII letter.
pub fn is_letter_char(c: char) -> (b: bool)
    ensures
        b == grammar::is_letter(c),
{
    let u = c as u32;
    ('a' as u32 <= u && u <= 'z' as u32) || ('A' as u32 <= u && u <= 'Z' as u32)
}

/// Whether `c` is an ASCII decimal digit.
pub fn is_digit_char(c: char) -> (b: bool)
    ensures
        b == grammar::is_digit(c),
{
    let u = c as u32;
    '0' as u32 <= u && u <= '9' as u32
}

/// Whether `c` is whitespace: space, tab, line feed or carriage return.
pub fn is_space_char(c: char) -> (b: bool)
    ensures
        b == grammar::is_space(c),
{
    c == ' ' || c == '\t' || c == '\n' || c == '\r'
}

/// Consume the maximal run of whitespace starting at `i`.
pub fn skip_whitespace(s: &str, i: usize) -> (j: usize)
    requires
        i <= s@.len(),
    ensures
        j as int == grammar::skip_ws(s@, i as int),
        i <= j <= s@.len(),
{
    let n = s.unicode_len();
    let mut j = i;
    while j < n && is_space_char(s.get_char(j))
        invariant
            i <= j <= n,
            n == s@.len(),
            grammar::skip_ws(s@, i as int) == grammar::skip_ws(s@, j as int),
        decreases n - j,
    {
        j = j + 1;
    }
    j
}

/// Whether the literal `kw` occurs in `s` starting exactly at `i`.
fn match_keyword(s: &str, i: usize, kw: &str) -> (b: bool)
    requires
        i <= s@.len(),
    ensures
        b == grammar::lit_at(s@, i as int, kw@),
{
    let n = s.unicode_len();
    let m = kw.unicode_len();
    if m > n - i {
        return false;
    }
    let mut k: usize = 0;
    while k < m
        invariant
            0 <= k <= m,
            i + m <= n,
            n == s@.len(),
            m == kw@.len(),
            forall|t: int| 0 <= t < k ==> s@[i + t] == kw@[t],
        decreases m - k,
    {
        if s.get_char(i + k) != kw.get_char(k) {
            assert(!grammar::lit_at(s@, i as int, kw@)) by {
                if grammar::lit_at(s@, i as int, kw@) {
                    assert(s@.subrange(i as int, i + kw@.len())[k as int] == kw@[k as int]);
                }
            }
            return false;
        }
        k = k + 1;
    }
    assert(s@.subrange(i as int, i + kw@.len()) =~= kw@);
    true
}

/// Recognize an identifier starting at `i` and return the position after it
/// together with the identifier's text.
pub fn parse_identifier(s: &str, i: usize) -> (r: Option<(usize, String)>)
    requires
        i <= s@.len(),
    ensures
        match r {
            Some((j, name)) => {
                &&& grammar::ident_at(s@, i as int) == Some((j as int, name@))
                &&& i < j <= s@.len()
            },
            None => grammar::ident_at(s@, i as int) is None,
        },
{
    let n = s.unicode_len();
    if i < n && is_letter_char(s.get_char(i)) {
        let mut j = i + 1;
        proof {
            assert(grammar::ident_end(s@, i as int) == grammar::ident_end(s@, i + 1));
        }
        while j < n && is_identifier_char(s.get_char(j))
            invariant
                i < j <= n,
                n == s@.len(),
                grammar::ident_end(s@, i as int) == grammar::ident_end(s@, j as int),
            decreases n - j,
        {
            j = j + 1;
        }
        let name = s.substring_char(i, j).to_owned();
        Some((j, name))
    } else {
        None
    }
}

/// Recognize one of the keywords `input`, `output`, `reg` after optional
/// whitespace, and classify it.
pub fn parse_signal_type(s: &str, i: usize) -> (r: Option<(usize, SignalType)>)
    requires
        i <= s@.len(),
    ensures
        match r {
            Some((j, st)) => {
                &&& grammar::signal_type_at(s@, i as int) == Some((j as int, st))
                &&& i < j <= s@.len()
            },
            None => grammar::signal_type_at(s@, i as int) is None,
        },
{
    let n = s.unicode_len();
    let j = skip_whitespace(s, i);
    proof {
        assert(n == s@.len());
        reveal_strlit("input");
        reveal_strlit("output");
        reveal_strlit("reg");
        assert("input"@ =~= grammar::kw_input());
        assert("output"@ =~= grammar::kw_output());
        assert("reg"@ =~= grammar::kw_reg());
    }
    if match_keyword(s, j, "input") {
        Some((j + 5, SignalType::Input))
    } else if match_keyword(s, j, "output") {
        Some((j + 6, SignalType::Output))
    } else if match_keyword(s, j, "reg") {
        Some((j + 3, SignalType::Reg))
    } else {
        None
    }
}

/// Recognize the width annotation `: u<digits>` after optional whitespace
/// and return the annotated width. A digit run whose value exceeds 255 is
/// rejected, never truncated.
pub fn parse_type_width(s: &str, i: usize) -> (r: Option<(usize, u8)>)
    requires
        i <= s@.len(),
    ensures
        match r {
            Some((j, w)) => {
                &&& grammar::width_at(s@, i as int) == Some((j as int, w))
                &&& i < j <= s@.len()
            },
            None => grammar::width_at(s@, i as int) is None,
        },
{
    let n = s.unicode_len();
    let j = skip_whitespace(s, i);
    if !(j < n && s.get_char(j) == ':') {
        return None;
    }
    let k = skip_whitespace(s, j + 1);
    if !(k < n && s.get_char(k) == 'u') {
        return None;
    }
    let d = k + 1;
    let mut e = d;
    let mut w: u32 = 0;
    while e < n && is_digit_char(s.get_char(e))
        invariant
            d <= e <= n,
            d <= n,
            n == s@.len(),
            grammar::digits_end(s@, d as int) == grammar::digits_end(s@, e as int),
            grammar::digits_val(s@.subrange(d as int, e as int)) <= 255 ==> w
                == grammar::digits_val(s@.subrange(d as int, e as int)),
            grammar::digits_val(s@.subrange(d as int, e as int)) > 255 ==> w > 255,
            w <= 2559,
        decreases n - e,
    {
        let c = s.get_char(e);
        let dv = c as u32 - '0' as u32;
        proof {
            let pre = s@.subrange(d as int, e as int);
            let ext = s@.subrange(d as int, e + 1);
            assert(ext.drop_last() =~= pre);
            assert(ext.last() == s@[e as int]);
            assert(grammar::digits_val(ext) == grammar::digits_val(pre) * 10 + grammar::digit_val(
                s@[e as int],
            ));
        }
        if w <= 255 {
            w = w * 10 + dv;
        }
        e = e + 1;
    }
    if e == d {
        return None;
    }
    if w > 255 {
        return None;
    }
    Some((e, w as u8))
}

/// Recognize one full signal declaration, such as `input a: u8;`, and build
/// the [`Signal`] it declares. All-or-nothing: on failure nothing is
/// consumed and no partial signal exists.
pub fn parse_signal_decl(s: &str, i: usize) -> (r: Option<(usize, Signal)>)
    requires
        i <= s@.len(),
    ensures
        match r {
            Some((j, sig)) => {
                &&& grammar::decl_at(s@, i as int) == Some((j as int, sig@))
                &&& i < j <= s@.len()
            },
            None => grammar::decl_at(s@, i as int) is None,
        },
{
    let n = s.unicode_len();
    let (j, sig_type) = match parse_signal_type(s, i) {
        Some(x) => x,
        None => {
            return None;
        },
    };
    if !(j < n && is_space_char(s.get_char(j))) {
        return None;
    }
    let k = skip_whitespace(s, j);
    let (m, name) = match parse_identifier(s, k) {
        Some(x) => x,
        None => {
            return None;
        },
    };
    let (p, width) = match parse_type_width(s, m) {
        Some(x) => x,
        None => {
            return None;
        },
    };
    let q = skip_whitespace(s, p);
    if !(q < n && s.get_char(q) == ';') {
        return None;
    }
    Some((q + 1, Signal { name, sig_type, width }))
}

/// Recognize one assignment, such as `sum = a + b;`, tolerating whitespace
/// between every pair of tokens. The produced right-hand side is rebuilt in
/// the canonical form `"<op1> + <op2>"`; the source's spacing is discarded.
pub fn parse_assignment(s: &str, i: usize) -> (r: Option<(usize, Assignment)>)
    requires
        i <= s@.len(),
    ensures
        match r {
            Some((j, a)) => {
                &&& grammar::assign_at(s@, i as int) == Some((j as int, a@))
                &&& i < j <= s@.len()
            },
            None => grammar::assign_at(s@, i as int) is None,
        },
{
    let n = s.unicode_len();
    let j0 = skip_whitespace(s, i);
    let (j1, lhs) = match parse_identifier(s, j0) {
        Some(x) => x,
        None => {
            return None;
        },
    };
    let j2 = skip_whitespace(s, j1);
    if !(j2 < n && s.get_char(j2) == '=') {
        return None;
    }
    let j3 = skip_whitespace(s, j2 + 1);
    let (j4, op1) = match parse_identifier(s, j3) {
        Some(x) => x,
        None => {
            return None;
        },
    };
    let j5 = skip_whitespace(s, j4);
    if !(j5 < n && s.get_char(j5) == '+') {
        return None;
    }
    let j6 = skip_whitespace(s, j5 + 1);
    let (j7, op2) = match parse_identifier(s, j6) {
        Some(x) => x,
        None => {
            return None;
        },
    };
    let j8 = skip_whitespace(s, j7);
    if !(j8 < n && s.get_char(j8) == ';') {
        return None;
    }
    let mut rhs = op1;
    rhs.append(" + ");
    rhs.append(op2.as_str());
    proof {
        reveal_strlit(" + ");
        assert(" + "@ =~= grammar::plus_sep());
    }
    Some((j8 + 1, Assignment { lhs, rhs }))
}

/// Greedily consume declarations, each with its surrounding whitespace,
/// until the text no longer matches one. The failed attempt consumes
/// nothing.
fn parse_decl_list(s: &str, i: usize) -> (r: (usize, Vec<Signal>))
    requires
        i <= s@.len(),
    ensures
        r.0 as int == grammar::decl_list_at(s@, i as int).0,
        crate::ir::signal_views(r.1@) == grammar::decl_list_at(s@, i as int).1,
        i <= r.0 <= s@.len(),
{
    let mut pos = i;
    let mut sigs: Vec<Signal> = Vec::new();
    let mut cur = parse_signal_decl(s, pos);
    while cur.is_some()
        invariant
            i <= pos <= s@.len(),
            match cur {
                Some((j, sig)) => grammar::decl_at(s@, pos as int) == Some((j as int, sig@)) && pos
                    < j <= s@.len(),
                None => grammar::decl_at(s@, pos as int) is None,
            },
            grammar::decl_list_at(s@, i as int).0 == grammar::decl_list_at(s@, pos as int).0,
            grammar::decl_list_at(s@, i as int).1 == crate::ir::signal_views(sigs@)
                + grammar::decl_list_at(s@, pos as int).1,
        decreases s@.len() - pos,
    {
        let (j, sig) = cur.unwrap();
        let k = skip_whitespace(s, j);
        proof {
            let ghost old_sigs = sigs@;
            assert(crate::ir::signal_views(old_sigs.push(sig)) =~= crate::ir::signal_views(
                old_sigs,
            ).push(sig@));
            assert(crate::ir::signal_views(old_sigs).push(sig@) =~= crate::ir::signal_views(
                old_sigs,
            ) + seq![sig@]);
        }
        sigs.push(sig);
        pos = k;
        cur = parse_signal_decl(s, pos);
    }
    (pos, sigs)
}

/// Greedily consume assignments, each with its surrounding whitespace,
/// until the text no longer matches one.
fn parse_assign_list(s: &str, i: usize) -> (r: (usize, Vec<Assignment>))
    requires
        i <= s@.len(),
    ensures
        r.0 as int == grammar::assign_list_at(s@, i as int).0,
        crate::ir::assignment_views(r.1@) == grammar::assign_list_at(s@, i as int).1,
        i <= r.0 <= s@.len(),
{
    let mut pos = i;
    let mut assigns: Vec<Assignment> = Vec::new();
    let mut cur = parse_assignment(s, pos);
    while cur.is_some()
        invariant
            i <= pos <= s@.len(),
            match cur {
                Some((j, a)) => grammar::assign_at(s@, pos as int) == Some((j as int, a@)) && pos
                    < j <= s@.len(),
                None => grammar::assign_at(s@, pos as int) is None,
            },
            grammar::assign_list_at(s@, i as int).0 == grammar::assign_list_at(s@, pos as int).0,
            grammar::assign_list_at(s@, i as int).1 == crate::ir::assignment_views(assigns@)
                + grammar::assign_list_at(s@, pos as int).1,
        decreases s@.len() - pos,
    {
        let (j, a) = cur.unwrap();
        let k = skip_whitespace(s, j);
        proof {
            let ghost old_assigns = assigns@;
            assert(crate::ir::assignment_views(old_assigns.push(a)) =~= crate::ir::assignment_views(
                old_assigns,
            ).push(a@));
            assert(crate::ir::assignment_views(old_assigns).push(a@) =~= crate::ir::assignment_views(
                old_assigns,
            ) + seq![a@]);
        }
        assigns.push(a);
        pos = k;
        cur = parse_assignment(s, pos);
    }
    (pos, assigns)
}

/// Parse one whole module. On success the returned [`Module`] is exactly
/// the value the grammar assigns to the text: its name is the declared
/// name, and its signals and assignments appear in source order. On any
/// text the grammar refuses — a missing token, a declaration after an
/// assignment before the closing brace, a width above 255 — an opaque
/// error is returned and nothing else is produced. Text after the closing
/// brace is ignored.
pub fn parse_module(input: &str) -> (r: Result<Module, ParseError>)
    ensures
        match r {
            Ok(m) => grammar::module_of(input@) == Some(m@),
            Err(_) => grammar::module_of(input@) is None,
        },
{
    let n = input.unicode_len();
    let i1 = skip_whitespace(input, 0);
    proof {
        reveal_strlit("module");
        assert("module"@ =~= grammar::kw_module());
    }
    if !match_keyword(input, i1, "module") {
        return Err(ParseError);
    }
    let i2 = i1 + 6;
    if !(i2 < n && is_space_char(input.get_char(i2))) {
        return Err(ParseError);
    }
    let i3 = skip_whitespace(input, i2);
    let (i4, name) = match parse_identifier(input, i3) {
        Some(x) => x,
        None => {
            return Err(ParseError);
        },
    };
    let i5 = skip_whitespace(input, i4);
    if !(i5 < n && input.get_char(i5) == '{') {
        return Err(ParseError);
    }
    let (i6, signals) = parse_decl_list(input, i5 + 1);
    let (i7, assignments) = parse_assign_list(input, i6);
    if !(i7 < n && input.get_char(i7) == '}') {
        return Err(ParseError);
    }
    Ok(Module { name, signals, assignments })
}

} // verus!

use vstd::prelude::*;
use crate::model::{ChoiceV, CommandV, ExprV, NodeV, PartDeclV, PartV, ValueV};

verus! {

// The script grammar, as partial functions from a position in the text to a
// parsed value and the position after it.
pub open spec fn is_ws(c: char) -> bool {
    c == ' ' || c == '\t' || c == '\n' || c == '\r'
}

pub open spec fn is_name_char(c: char) -> bool {
    ('a' <= c && c <= 'z') || ('A' <= c && c <= 'Z') || ('0' <= c && c <= '9') || c == '_'
}

pub open spec fn is_digit(c: char) -> bool {
    '0' <= c && c <= '9'
}

pub open spec fn is_lit_char(c: char) -> bool {
    c != '"' && c != '{'
}

/// The first position at or after `i` whose character is not whitespace.
pub open spec fn skip_ws(s: Seq<char>, i: int) -> int
    decreases s.len() - i,
{
    if 0 <= i < s.len() && is_ws(s[i]) {
        skip_ws(s, i + 1)
    } else {
        i
    }
}

pub open spec fn name_end(s: Seq<char>, i: int) -> int
    decreases s.len() - i,
{
    if 0 <= i < s.len() && is_name_char(s[i]) {
        name_end(s, i + 1)
    } else {
        i
    }
}

pub open spec fn digit_end(s: Seq<char>, i: int) -> int
    decreases s.len() - i,
{
    if 0 <= i < s.len() && is_digit(s[i]) {
        digit_end(s, i + 1)
    } else {
        i
    }
}

pub open spec fn lit_end(s: Seq<char>, i: int) -> int
    decreases s.len() - i,
{
    if 0 <= i < s.len() && is_lit_char(s[i]) {
        lit_end(s, i + 1)
    } else {
        i
    }
}

pub open spec fn char_at(s: Seq<char>, i: int, c: char) -> bool {
    0 <= i < s.len() && s[i] == c
}

/// Whether the text holds `t` at position `i`.
pub open spec fn has_tag(s: Seq<char>, i: int, t: Seq<char>) -> bool {
    0 <= i && i + t.len() <= s.len() && s.subrange(i, i + t.len()) == t
}

/// A name: one or more ASCII letters, digits or underscores.
pub open spec fn p_name(s: Seq<char>, i: int) -> Option<(Seq<char>, int)> {
    let e = name_end(s, i);
    if e > i {
        Some((s.subrange(i, e), e))
    } else {
        None
    }
}

pub open spec fn digit_value(c: char) -> nat {
    (c as int - '0' as int) as nat
}

pub open spec fn digits_value(ds: Seq<char>) -> nat
    decreases ds.len(),
{
    if ds.len() == 0 {
        0
    } else {
        digits_value(ds.drop_last()) * 10 + digit_value(ds.last())
    }
}

/// An integer: an optional sign and one or more decimal digits, within `i32`.
pub open spec fn p_int(s: Seq<char>, i: int) -> Option<(ValueV, int)> {
    let neg = char_at(s, i, '-');
    let j = if neg || char_at(s, i, '+') {
        i + 1
    } else {
        i
    };
    let d = digit_end(s, j);
    let v: int = digits_value(s.subrange(j, d)) as int;
    let signed = if neg {
        -v
    } else {
        v
    };
    if d > j && i32::MIN <= signed <= i32::MAX {
        Some((ValueV::Int(signed as i32), d))
    } else {
        None
    }
}

pub open spec fn p_bool(s: Seq<char>, i: int) -> Option<(ValueV, int)> {
    if has_tag(s, i, seq!['t', 'r', 'u', 'e']) {
        Some((ValueV::Bool(true), i + 4))
    } else if has_tag(s, i, seq!['f', 'a', 'l', 's', 'e']) {
        Some((ValueV::Bool(false), i + 5))
    } else {
        None
    }
}

/// A `{name}` placeholder.
pub open spec fn p_placeholder(s: Seq<char>, i: int) -> Option<(PartV, int)> {
    if char_at(s, i, '{') {
        match p_name(s, i + 1) {
            Some((n, j)) => if char_at(s, j, '}') {
                Some((PartV::Name(n), j + 1))
            } else {
                None
            },
            None => None,
        }
    } else {
        None
    }
}

/// The parts of a template from `i` on, after those already in `acc`, and where they end.
pub open spec fn template_parts(s: Seq<char>, i: int, acc: Seq<PartV>) -> (Seq<PartV>, int)
    decreases s.len() - i,
{
    if !(0 <= i <= s.len()) {
        (acc, i)
    } else if i < lit_end(s, i) <= s.len() {
        template_parts(s, lit_end(s, i), acc.push(PartV::Lit(s.subrange(i, lit_end(s, i)))))
    } else {
        match p_placeholder(s, i) {
            Some((p, j)) => if i < j <= s.len() {
                template_parts(s, j, acc.push(p))
            } else {
                (acc, i)
            },
            None => (acc, i),
        }
    }
}

/// A double-quoted template.
pub open spec fn p_template(s: Seq<char>, i: int) -> Option<(Seq<PartV>, int)> {
    if char_at(s, i, '"') {
        let (parts, j) = template_parts(s, i + 1, seq![]);
        if char_at(s, j, '"') {
            Some((parts, j + 1))
        } else {
            None
        }
    } else {
        None
    }
}

pub open spec fn p_value(s: Seq<char>, i: int) -> Option<(ValueV, int)> {
    match p_bool(s, i) {
        Some(r) => Some(r),
        None => match p_int(s, i) {
            Some(r) => Some(r),
            None => match p_template(s, i) {
                Some((t, j)) => Some((ValueV::Str(t), j)),
                None => None,
            },
        },
    }
}

pub open spec fn p_primary(s: Seq<char>, i: int) -> Option<(ExprV, int)> {
    match p_value(s, i) {
        Some((v, j)) => Some((ExprV::Val(v), j)),
        None => match p_name(s, i) {
            Some((n, j)) => Some((ExprV::Name(n), j)),
            None => None,
        },
    }
}

/// The comparison operators, by code: 0 `=`, 1 `!=`, 2 `>`, 3 `<`.
pub open spec fn p_operator(s: Seq<char>, i: int) -> Option<(int, int)> {
    if has_tag(s, i, seq!['!', '=']) {
        Some((1, i + 2))
    } else if char_at(s, i, '=') {
        Some((0, i + 1))
    } else if char_at(s, i, '>') {
        Some((2, i + 1))
    } else if char_at(s, i, '<') {
        Some((3, i + 1))
    } else {
        None
    }
}

pub open spec fn binary(op: int, l: ExprV, r: ExprV) -> ExprV {
    if op == 0 {
        ExprV::Eq(Box::new(l), Box::new(r))
    } else if op == 1 {
        ExprV::Ne(Box::new(l), Box::new(r))
    } else if op == 2 {
        ExprV::Gt(Box::new(l), Box::new(r))
    } else {
        ExprV::Lt(Box::new(l), Box::new(r))
    }
}

/// A primary, optionally followed by one operator and a second primary. Where no
/// complete comparison follows, the expression is the first primary alone.
pub open spec fn p_expression(s: Seq<char>, i: int) -> Option<(ExprV, int)> {
    match p_primary(s, i) {
        Some((l, j)) => match p_operator(s, skip_ws(s, j)) {
            Some((op, k)) => match p_primary(s, skip_ws(s, k)) {
                Some((r, e)) => Some((binary(op, l, r), e)),
                None => Some((l, j)),
            },
            None => Some((l, j)),
        },
        None => None,
    }
}

/// `[IF expression]`
pub open spec fn p_requirement(s: Seq<char>, i: int) -> Option<(ExprV, int)> {
    if char_at(s, i, '[') && has_tag(s, skip_ws(s, i + 1), seq!['I', 'F']) {
        match p_expression(s, skip_ws(s, skip_ws(s, i + 1) + 2)) {
            Some((e, j)) => if char_at(s, skip_ws(s, j), ']') {
                Some((e, skip_ws(s, j) + 1))
            } else {
                None
            },
            None => None,
        }
    } else {
        None
    }
}

/// `name = value`
pub open spec fn p_assignment(s: Seq<char>, i: int) -> Option<(CommandV, int)> {
    match p_name(s, i) {
        Some((n, j)) => if char_at(s, skip_ws(s, j), '=') {
            match p_value(s, skip_ws(s, skip_ws(s, j) + 1)) {
                Some((v, k)) => Some((CommandV::Assign { name: n, value: v }, k)),
                None => None,
            }
        } else {
            None
        },
        None => None,
    }
}

/// `[THEN name = value]`
pub open spec fn p_command(s: Seq<char>, i: int) -> Option<(CommandV, int)> {
    if char_at(s, i, '[') && has_tag(s, skip_ws(s, i + 1), seq!['T', 'H', 'E', 'N']) {
        match p_assignment(s, skip_ws(s, skip_ws(s, i + 1) + 4)) {
            Some((c, j)) => if char_at(s, skip_ws(s, j), ']') {
                Some((c, skip_ws(s, j) + 1))
            } else {
                None
            },
            None => None,
        }
    } else {
        None
    }
}

/// An optional requirement, a template, `->`, a target id and an optional command.
pub open spec fn p_choice(s: Seq<char>, i: int) -> Option<(ChoiceV, int)> {
    let (req, a): (Option<ExprV>, int) = match p_requirement(s, i) {
        Some((e, j)) => (Some(e), skip_ws(s, j)),
        None => (None, i),
    };
    match p_template(s, a) {
        Some((t, b)) => if has_tag(s, skip_ws(s, b), seq!['-', '>']) {
            match p_name(s, skip_ws(s, skip_ws(s, b) + 2)) {
                Some((id, c)) => {
                    let (cmd, e): (Option<CommandV>, int) = match p_command(s, skip_ws(s, c)) {
                        Some((x, k)) => (Some(x), k),
                        None => (None, c),
                    };
                    Some((ChoiceV { requirement: req, text: t, target: id, command: cmd }, e))
                },
                None => None,
            }
        } else {
            None
        },
        None => None,
    }
}

/// Choices from `i` on, each with the whitespace around it, after those in `acc`.
pub open spec fn choice_list(s: Seq<char>, i: int, acc: Seq<ChoiceV>) -> (Seq<ChoiceV>, int)
    decreases s.len() - i,
{
    match p_choice(s, skip_ws(s, i)) {
        Some((c, j)) => if i < skip_ws(s, j) <= s.len() {
            choice_list(s, skip_ws(s, j), acc.push(c))
        } else {
            (acc, i)
        },
        None => (acc, i),
    }
}

/// `=id "text" choice*`
pub open spec fn p_node(s: Seq<char>, i: int) -> Option<((Seq<char>, NodeV), int)> {
    if char_at(s, i, '=') {
        match p_name(s, skip_ws(s, i + 1)) {
            Some((id, j)) => match p_template(s, skip_ws(s, j)) {
                Some((t, k)) => {
                    let (cs, e) = choice_list(s, k, seq![]);
                    Some(((id, NodeV { text: t, choices: cs }), e))
                },
                None => None,
            },
            None => None,
        }
    } else {
        None
    }
}

/// `SET name value`, with at least one whitespace character before the name and the value.
pub open spec fn p_variable(s: Seq<char>, i: int) -> Option<((Seq<char>, ValueV), int)> {
    if has_tag(s, i, seq!['S', 'E', 'T']) && 0 <= i + 3 < s.len() && is_ws(s[i + 3]) {
        match p_name(s, skip_ws(s, i + 3)) {
            Some((n, j)) => if 0 <= j < s.len() && is_ws(s[j]) {
                match p_value(s, skip_ws(s, j)) {
                    Some((v, k)) => Some(((n, v), k)),
                    None => None,
                }
            } else {
                None
            },
            None => None,
        }
    } else {
        None
    }
}

pub open spec fn p_declaration(s: Seq<char>, i: int) -> Option<(PartDeclV, int)> {
    match p_node(s, i) {
        Some(((id, node), j)) => Some((PartDeclV::Node { id, node }, j)),
        None => match p_variable(s, i) {
            Some(((name, value), j)) => Some((PartDeclV::Var { name, value }, j)),
            None => None,
        },
    }
}

/// Declarations from `i` on, each with the whitespace around it, after those in `acc`.
pub open spec fn declaration_list(s: Seq<char>, i: int, acc: Seq<PartDeclV>) -> (
    Seq<PartDeclV>,
    int,
)
    decreases s.len() - i,
{
    match p_declaration(s, skip_ws(s, i)) {
        Some((d, j)) => if i < skip_ws(s, j) <= s.len() {
            declaration_list(s, skip_ws(s, j), acc.push(d))
        } else {
            (acc, i)
        },
        None => (acc, i),
    }
}

/// A whole script: declarations, with nothing but whitespace after the last one.
pub open spec fn p_program(s: Seq<char>) -> Option<Seq<PartDeclV>> {
    let (ds, i) = declaration_list(s, 0, seq![]);
    if skip_ws(s, i) == s.len() {
        Some(ds)
    } else {
        None
    }
}

} // verus!

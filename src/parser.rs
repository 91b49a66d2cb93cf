use vstd::prelude::*;
use crate::grammar::{
    char_at, digit_end, digits_value, has_tag, is_digit, lit_end, name_end, p_assignment, p_bool, p_choice, p_command,
    p_declaration, p_expression, p_int, p_name, p_node, p_operator, p_placeholder, p_primary,
    p_program, p_requirement, p_template, p_value, p_variable, skip_ws, template_parts,
    choice_list, declaration_list,
};
use crate::model::{
    Choice, Command, Expression, FormatString, FormatStringPart, Node, ProgramPart, Value,
    choices_view, decls_view, opt_expr_view, parts_view,
};

verus! {

fn char_is(s: &Vec<char>, i: usize, c: char) -> (r: bool)
    ensures
        r == char_at(s@, i as int, c),
        r ==> i < s.len(),
{
    i < s.len() && s[i] == c
}

/// Whether the text holds the literal `t` at position `i`.
fn tag_at(s: &Vec<char>, i: usize, t: &str) -> (r: bool)
    ensures
        r == has_tag(s@, i as int, t@),
        r ==> i + t@.len() <= s.len(),
{
    let n = t.unicode_len();
    if n > s.len() || i > s.len() - n {
        return false;
    }
    let mut k: usize = 0;
    while k < n
        invariant
            n == t@.len(),
            i + n <= s.len(),
            k <= n,
            forall|m: int| 0 <= m < k ==> s@[i + m] == t@[m],
        decreases n - k,
    {
        if s[i + k] != t.get_char(k) {
            assert(s@.subrange(i as int, i + n)[k as int] != t@[k as int]);
            return false;
        }
        k = k + 1;
    }
    assert(s@.subrange(i as int, i + n) =~= t@);
    true
}

fn skip_whitespace(s: &Vec<char>, i: usize) -> (r: usize)
    requires
        i <= s@.len(),
    ensures
        r as int == skip_ws(s@, i as int),
        i <= r <= s.len(),
{
    let mut k = i;
    while k < s.len() && (s[k] == ' ' || s[k] == '\t' || s[k] == '\n' || s[k] == '\r')
        invariant
            i <= k <= s@.len(),
            skip_ws(s@, i as int) == skip_ws(s@, k as int),
        decreases s@.len() - k,
    {
        k = k + 1;
    }
    k
}

fn scan_name(s: &Vec<char>, i: usize) -> (r: usize)
    requires
        i <= s@.len(),
    ensures
        r as int == name_end(s@, i as int),
        i <= r <= s.len(),
{
    let mut k = i;
    while k < s.len() && (('a' <= s[k] && s[k] <= 'z') || ('A' <= s[k] && s[k] <= 'Z') || ('0'
        <= s[k] && s[k] <= '9') || s[k] == '_')
        invariant
            i <= k <= s@.len(),
            name_end(s@, i as int) == name_end(s@, k as int),
        decreases s@.len() - k,
    {
        k = k + 1;
    }
    k
}

fn scan_literal(s: &Vec<char>, i: usize) -> (r: usize)
    requires
        i <= s@.len(),
    ensures
        r as int == lit_end(s@, i as int),
        i <= r <= s.len(),
{
    let mut k = i;
    while k < s.len() && s[k] != '"' && s[k] != '{'
        invariant
            i <= k <= s@.len(),
            lit_end(s@, i as int) == lit_end(s@, k as int),
        decreases s@.len() - k,
    {
        k = k + 1;
    }
    k
}

/// The characters of `src` from `a` to `b` as a `String`.
fn text_between(s: &Vec<char>, src: &str, a: usize, b: usize) -> (r: String)
    requires
        s@ == src@,
        a <= b <= s@.len(),
    ensures
        r@ == s@.subrange(a as int, b as int),
{
    String::from_str(src.substring_char(a, b))
}

fn parse_name(s: &Vec<char>, src: &str, i: usize) -> (r: Option<(String, usize)>)
    requires
        s@ == src@,
        i <= s@.len(),
    ensures
        match r {
            Some((n, j)) => p_name(s@, i as int) == Some((n@, j as int)) && j <= s.len(),
            None => p_name(s@, i as int) is None,
        },
{
    let e = scan_name(s, i);
    if e > i {
        Some((text_between(s, src, i, e), e))
    } else {
        None
    }
}

fn parse_bool(s: &Vec<char>, i: usize) -> (r: Option<(Value, usize)>)
    requires
        i <= s@.len(),
    ensures
        match r {
            Some((v, j)) => p_bool(s@, i as int) == Some((v.view(), j as int)) && j <= s.len(),
            None => p_bool(s@, i as int) is None,
        },
{
    proof {
        reveal_strlit("true");
        reveal_strlit("false");
    }
    assert("true"@ =~= seq!['t', 'r', 'u', 'e']);
    assert("false"@ =~= seq!['f', 'a', 'l', 's', 'e']);
    if tag_at(s, i, "true") {
        Some((Value::Bool(true), i + 4))
    } else if tag_at(s, i, "false") {
        Some((Value::Bool(false), i + 5))
    } else {
        None
    }
}

proof fn lemma_digits_grow(s: Seq<char>, j: int, k: int, e: int)
    requires
        0 <= j <= k <= e <= s.len(),
    ensures
        digits_value(s.subrange(j, k)) <= digits_value(s.subrange(j, e)),
    decreases e - k,
{
    if k < e {
        lemma_digits_grow(s, j, k, e - 1);
        assert(s.subrange(j, e).drop_last() =~= s.subrange(j, e - 1));
    }
}

proof fn lemma_digit_end_ge(s: Seq<char>, k: int)
    requires
        0 <= k <= s.len(),
    ensures
        k <= digit_end(s, k) <= s.len(),
    decreases s.len() - k,
{
    if k < s.len() && is_digit(s[k]) {
        lemma_digit_end_ge(s, k + 1);
    }
}

proof fn lemma_int_too_large(s: Seq<char>, i: int, j: int)
    requires
        j == (if char_at(s, i, '-') || char_at(s, i, '+') {
            i + 1
        } else {
            i
        }),
        digits_value(s.subrange(j, digit_end(s, j))) > 2147483648,
    ensures
        p_int(s, i) is None,
{
}

fn parse_int(s: &Vec<char>, i: usize) -> (r: Option<(Value, usize)>)
    requires
        i <= s@.len(),
    ensures
        match r {
            Some((v, j)) => p_int(s@, i as int) == Some((v.view(), j as int)) && j <= s.len(),
            None => p_int(s@, i as int) is None,
        },
{
    let neg = char_is(s, i, '-');
    let j = if neg || char_is(s, i, '+') {
        i + 1
    } else {
        i
    };
    let mut acc: u64 = 0;
    let mut k = j;
    while k < s.len() && '0' <= s[k] && s[k] <= '9'
        invariant
            j <= k <= s@.len(),
            neg == char_at(s@, i as int, '-'),
            j == (if char_at(s@, i as int, '-') || char_at(s@, i as int, '+') {
                i + 1
            } else {
                i as int
            }),
            digit_end(s@, j as int) == digit_end(s@, k as int),
            acc == digits_value(s@.subrange(j as int, k as int)),
            acc <= 2147483648,
        decreases s@.len() - k,
    {
        let d = (s[k] as u32 - '0' as u32) as u64;
        let next = acc * 10 + d;
        assert(s@.subrange(j as int, k + 1).drop_last() =~= s@.subrange(j as int, k as int));
        assert(next == digits_value(s@.subrange(j as int, k + 1)));
        if next > 2147483648 {
            proof {
                lemma_digit_end_ge(s@, k + 1);
                assert(digit_end(s@, k as int) == digit_end(s@, k + 1));
                lemma_digits_grow(s@, j as int, k + 1, digit_end(s@, j as int));
                lemma_int_too_large(s@, i as int, j as int);
            }
            return None;
        }
        acc = next;
        k = k + 1;
    }
    if k == j {
        return None;
    }
    let signed: i64 = if neg {
        -(acc as i64)
    } else {
        acc as i64
    };
    if signed > 2147483647 {
        return None;
    }
    Some((Value::Int(signed as i32), k))
}

fn parse_format_string_part_name(s: &Vec<char>, src: &str, i: usize) -> (r: Option<
    (FormatStringPart, usize),
>)
    requires
        s@ == src@,
        i <= s@.len(),
    ensures
        match r {
            Some((p, j)) => p_placeholder(s@, i as int) == Some((p.view(), j as int)) && j
                <= s.len(),
            None => p_placeholder(s@, i as int) is None,
        },
{
    if char_is(s, i, '{') {
        match parse_name(s, src, i + 1) {
            Some((n, j)) => {
                if char_is(s, j, '}') {
                    Some((FormatStringPart::Name(n), j + 1))
                } else {
                    None
                }
            },
            None => None,
        }
    } else {
        None
    }
}

fn parse_format_string(s: &Vec<char>, src: &str, i: usize) -> (r: Option<(FormatString, usize)>)
    requires
        s@ == src@,
        i <= s@.len(),
    ensures
        match r {
            Some((t, j)) => p_template(s@, i as int) == Some((t.view(), j as int)) && j
                <= s.len(),
            None => p_template(s@, i as int) is None,
        },
{
    if !char_is(s, i, '"') {
        return None;
    }
    let mut parts: Vec<FormatStringPart> = Vec::new();
    let mut pos = i + 1;
    assert(parts_view(parts@) =~= seq![]);
    let mut done = false;
    while !done
        invariant
            s@ == src@,
            i + 1 <= pos <= s@.len(),
            template_parts(s@, i + 1, seq![]) == (if done {
                (parts_view(parts@), pos as int)
            } else {
                template_parts(s@, pos as int, parts_view(parts@))
            }),
        decreases s@.len() - pos + (if done {
            0int
        } else {
            1int
        }),
    {
        let ghost before = parts@;
        let e = scan_literal(s, pos);
        if pos < e {
            let lit = FormatStringPart::Literal(text_between(s, src, pos, e));
            parts.push(lit);
            assert(parts_view(parts@) =~= parts_view(before).push(lit.view()));
            pos = e;
        } else {
            match parse_format_string_part_name(s, src, pos) {
                Some((p, j)) => {
                    if pos < j {
                        parts.push(p);
                        assert(parts_view(parts@) =~= parts_view(before).push(p.view()));
                        pos = j;
                    } else {
                        done = true;
                    }
                },
                None => {
                    done = true;
                },
            }
        }
    }
    if char_is(s, pos, '"') {
        Some((FormatString(parts), pos + 1))
    } else {
        None
    }
}

fn parse_value(s: &Vec<char>, src: &str, i: usize) -> (r: Option<(Value, usize)>)
    requires
        s@ == src@,
        i <= s@.len(),
    ensures
        match r {
            Some((v, j)) => p_value(s@, i as int) == Some((v.view(), j as int)) && j <= s.len(),
            None => p_value(s@, i as int) is None,
        },
{
    match parse_bool(s, i) {
        Some(r) => Some(r),
        None => match parse_int(s, i) {
            Some(r) => Some(r),
            None => match parse_format_string(s, src, i) {
                Some((t, j)) => Some((Value::String(t), j)),
                None => None,
            },
        },
    }
}

fn parse_primary_expression(s: &Vec<char>, src: &str, i: usize) -> (r: Option<(Expression, usize)>)
    requires
        s@ == src@,
        i <= s@.len(),
    ensures
        match r {
            Some((e, j)) => p_primary(s@, i as int) == Some((e.view(), j as int)) && j
                <= s.len(),
            None => p_primary(s@, i as int) is None,
        },
{
    match parse_value(s, src, i) {
        Some((v, j)) => Some((Expression::Value(v), j)),
        None => match parse_name(s, src, i) {
            Some((n, j)) => Some((Expression::Name(n), j)),
            None => None,
        },
    }
}

fn parse_operator(s: &Vec<char>, i: usize) -> (r: Option<(u8, usize)>)
    requires
        i <= s@.len(),
    ensures
        match r {
            Some((op, j)) => p_operator(s@, i as int) == Some((op as int, j as int)) && j
                <= s.len(),
            None => p_operator(s@, i as int) is None,
        },
{
    proof {
        reveal_strlit("!=");
    }
    assert("!="@ =~= seq!['!', '=']);
    if tag_at(s, i, "!=") {
        Some((1, i + 2))
    } else if char_is(s, i, '=') {
        Some((0, i + 1))
    } else if char_is(s, i, '>') {
        Some((2, i + 1))
    } else if char_is(s, i, '<') {
        Some((3, i + 1))
    } else {
        None
    }
}

fn parse_expression(s: &Vec<char>, src: &str, i: usize) -> (r: Option<(Expression, usize)>)
    requires
        s@ == src@,
        i <= s@.len(),
    ensures
        match r {
            Some((e, j)) => p_expression(s@, i as int) == Some((e.view(), j as int)) && j
                <= s.len(),
            None => p_expression(s@, i as int) is None,
        },
{
    let (left, j) = match parse_primary_expression(s, src, i) {
        Some(x) => x,
        None => {
            return None;
        },
    };
    let ws = skip_whitespace(s, j);
    let (op, k) = match parse_operator(s, ws) {
        Some(x) => x,
        None => {
            return Some((left, j));
        },
    };
    let ws2 = skip_whitespace(s, k);
    let (right, e) = match parse_primary_expression(s, src, ws2) {
        Some(x) => x,
        None => {
            return Some((left, j));
        },
    };
    let left = Box::new(left);
    let right = Box::new(right);
    let expr = if op == 0 {
        Expression::Equals { left, right }
    } else if op == 1 {
        Expression::NotEquals { left, right }
    } else if op == 2 {
        Expression::GreaterThan { left, right }
    } else {
        Expression::LessThan { left, right }
    };
    Some((expr, e))
}

fn parse_requirement(s: &Vec<char>, src: &str, i: usize) -> (r: Option<(Expression, usize)>)
    requires
        s@ == src@,
        i <= s@.len(),
    ensures
        match r {
            Some((e, j)) => p_requirement(s@, i as int) == Some((e.view(), j as int)) && j
                <= s.len(),
            None => p_requirement(s@, i as int) is None,
        },
{
    proof {
        reveal_strlit("IF");
    }
    assert("IF"@ =~= seq!['I', 'F']);
    if !char_is(s, i, '[') {
        return None;
    }
    let a = skip_whitespace(s, i + 1);
    if !tag_at(s, a, "IF") {
        return None;
    }
    let b = skip_whitespace(s, a + 2);
    match parse_expression(s, src, b) {
        Some((e, j)) => {
            let c = skip_whitespace(s, j);
            if char_is(s, c, ']') {
                Some((e, c + 1))
            } else {
                None
            }
        },
        None => None,
    }
}

fn parse_command_set(s: &Vec<char>, src: &str, i: usize) -> (r: Option<(Command, usize)>)
    requires
        s@ == src@,
        i <= s@.len(),
    ensures
        match r {
            Some((c, j)) => p_assignment(s@, i as int) == Some((c.view(), j as int)) && j
                <= s.len(),
            None => p_assignment(s@, i as int) is None,
        },
{
    match parse_name(s, src, i) {
        Some((name, j)) => {
            let a = skip_whitespace(s, j);
            if !char_is(s, a, '=') {
                return None;
            }
            let b = skip_whitespace(s, a + 1);
            match parse_value(s, src, b) {
                Some((value, k)) => Some((Command::Assign { name, value }, k)),
                None => None,
            }
        },
        None => None,
    }
}

fn parse_command(s: &Vec<char>, src: &str, i: usize) -> (r: Option<(Command, usize)>)
    requires
        s@ == src@,
        i <= s@.len(),
    ensures
        match r {
            Some((c, j)) => p_command(s@, i as int) == Some((c.view(), j as int)) && j
                <= s.len(),
            None => p_command(s@, i as int) is None,
        },
{
    proof {
        reveal_strlit("THEN");
    }
    assert("THEN"@ =~= seq!['T', 'H', 'E', 'N']);
    if !char_is(s, i, '[') {
        return None;
    }
    let a = skip_whitespace(s, i + 1);
    if !tag_at(s, a, "THEN") {
        return None;
    }
    let b = skip_whitespace(s, a + 4);
    match parse_command_set(s, src, b) {
        Some((c, j)) => {
            let e = skip_whitespace(s, j);
            if char_is(s, e, ']') {
                Some((c, e + 1))
            } else {
                None
            }
        },
        None => None,
    }
}

fn parse_choice(s: &Vec<char>, src: &str, i: usize) -> (r: Option<(Choice, usize)>)
    requires
        s@ == src@,
        i <= s@.len(),
    ensures
        match r {
            Some((c, j)) => p_choice(s@, i as int) == Some((c.view(), j as int)) && j
                <= s.len(),
            None => p_choice(s@, i as int) is None,
        },
{
    proof {
        reveal_strlit("->");
    }
    assert("->"@ =~= seq!['-', '>']);
    let (requirement, a) = match parse_requirement(s, src, i) {
        Some((e, j)) => (Some(e), skip_whitespace(s, j)),
        None => (None, i),
    };
    let (text, b) = match parse_format_string(s, src, a) {
        Some(x) => x,
        None => {
            return None;
        },
    };
    let arrow = skip_whitespace(s, b);
    if !tag_at(s, arrow, "->") {
        return None;
    }
    let c0 = skip_whitespace(s, arrow + 2);
    let (next_node_id, c) = match parse_name(s, src, c0) {
        Some(x) => x,
        None => {
            return None;
        },
    };
    let w = skip_whitespace(s, c);
    let (command, e) = match parse_command(s, src, w) {
        Some((x, k)) => (Some(x), k),
        None => (None, c),
    };
    let choice = Choice { requirement, text, next_node_id, command };
    assert(opt_expr_view(choice.requirement) == (match p_requirement(s@, i as int) {
        Some((x, _)) => Some(x),
        None => None::<crate::model::ExprV>,
    }));
    Some((choice, e))
}

fn parse_choices(s: &Vec<char>, src: &str, i: usize) -> (r: (Vec<Choice>, usize))
    requires
        s@ == src@,
        i <= s@.len(),
    ensures
        choice_list(s@, i as int, seq![]) == (choices_view(r.0@), r.1 as int),
        r.1 <= s.len(),
{
    let mut choices: Vec<Choice> = Vec::new();
    let mut pos = i;
    assert(choices_view(choices@) =~= seq![]);
    let mut done = false;
    while !done
        invariant
            s@ == src@,
            i <= pos <= s@.len(),
            choice_list(s@, i as int, seq![]) == (if done {
                (choices_view(choices@), pos as int)
            } else {
                choice_list(s@, pos as int, choices_view(choices@))
            }),
        decreases s@.len() - pos + (if done {
            0int
        } else {
            1int
        }),
    {
        let a = skip_whitespace(s, pos);
        match parse_choice(s, src, a) {
            Some((c, j)) => {
                let e = skip_whitespace(s, j);
                if pos < e {
                    let ghost before = choices@;
                    choices.push(c);
                    assert(choices_view(choices@) =~= choices_view(before).push(c.view()));
                    pos = e;
                } else {
                    done = true;
                }
            },
            None => {
                done = true;
            },
        }
    }
    (choices, pos)
}

fn parse_node_definition(s: &Vec<char>, src: &str, i: usize) -> (r: Option<((String, Node), usize)>)
    requires
        s@ == src@,
        i <= s@.len(),
    ensures
        match r {
            Some(((id, node), j)) => p_node(s@, i as int) == Some(((id@, node.view()), j as int))
                && j <= s.len(),
            None => p_node(s@, i as int) is None,
        },
{
    if !char_is(s, i, '=') {
        return None;
    }
    let a = skip_whitespace(s, i + 1);
    let (id, j) = match parse_name(s, src, a) {
        Some(x) => x,
        None => {
            return None;
        },
    };
    let b = skip_whitespace(s, j);
    let (display_text, k) = match parse_format_string(s, src, b) {
        Some(x) => x,
        None => {
            return None;
        },
    };
    let (choices, e) = parse_choices(s, src, k);
    Some(((id, Node { display_text, choices }), e))
}

fn parse_variable_definition(s: &Vec<char>, src: &str, i: usize) -> (r: Option<
    ((String, Value), usize),
>)
    requires
        s@ == src@,
        i <= s@.len(),
    ensures
        match r {
            Some(((name, value), j)) => p_variable(s@, i as int) == Some(
                ((name@, value.view()), j as int),
            ) && j <= s.len(),
            None => p_variable(s@, i as int) is None,
        },
{
    proof {
        reveal_strlit("SET");
    }
    assert("SET"@ =~= seq!['S', 'E', 'T']);
    if !tag_at(s, i, "SET") || i + 3 >= s.len() {
        return None;
    }
    let c = s[i + 3];
    if !(c == ' ' || c == '\t' || c == '\n' || c == '\r') {
        return None;
    }
    let a = skip_whitespace(s, i + 3);
    let (name, j) = match parse_name(s, src, a) {
        Some(x) => x,
        None => {
            return None;
        },
    };
    if j >= s.len() {
        return None;
    }
    let d = s[j];
    if !(d == ' ' || d == '\t' || d == '\n' || d == '\r') {
        return None;
    }
    let b = skip_whitespace(s, j);
    match parse_value(s, src, b) {
        Some((value, k)) => Some(((name, value), k)),
        None => None,
    }
}

fn parse_program_part(s: &Vec<char>, src: &str, i: usize) -> (r: Option<(ProgramPart, usize)>)
    requires
        s@ == src@,
        i <= s@.len(),
    ensures
        match r {
            Some((p, j)) => p_declaration(s@, i as int) == Some((p.view(), j as int)) && j
                <= s.len(),
            None => p_declaration(s@, i as int) is None,
        },
{
    match parse_node_definition(s, src, i) {
        Some(((id, node), j)) => Some((ProgramPart::NodeDefinition { id, node }, j)),
        None => match parse_variable_definition(s, src, i) {
            Some(((name, value), j)) => Some((ProgramPart::VariableDefinition { name, value }, j)),
            None => None,
        },
    }
}

/// Parses a whole script into its declarations, in order. The script parses when it is
/// a sequence of declarations with nothing but whitespace around them.
pub fn parse_program(input: &str) -> (r: Option<Vec<ProgramPart>>)
    ensures
        match r {
            Some(parts) => p_program(input@) == Some(decls_view(parts@)),
            None => p_program(input@) is None,
        },
{
    let n = input.unicode_len();
    let mut s: Vec<char> = Vec::new();
    let mut k: usize = 0;
    while k < n
        invariant
            n == input@.len(),
            k <= n,
            s@ == input@.subrange(0, k as int),
        decreases n - k,
    {
        s.push(input.get_char(k));
        k = k + 1;
        assert(s@ =~= input@.subrange(0, k as int));
    }
    assert(s@ =~= input@);
    let mut parts: Vec<ProgramPart> = Vec::new();
    let mut pos: usize = 0;
    assert(decls_view(parts@) =~= seq![]);
    let mut done = false;
    while !done
        invariant
            s@ == input@,
            pos <= s@.len(),
            declaration_list(s@, 0, seq![]) == (if done {
                (decls_view(parts@), pos as int)
            } else {
                declaration_list(s@, pos as int, decls_view(parts@))
            }),
        decreases s@.len() - pos + (if done {
            0int
        } else {
            1int
        }),
    {
        let a = skip_whitespace(&s, pos);
        match parse_program_part(&s, input, a) {
            Some((p, j)) => {
                let e = skip_whitespace(&s, j);
                if pos < e {
                    let ghost before = parts@;
                    parts.push(p);
                    assert(decls_view(parts@) =~= decls_view(before).push(p.view()));
                    pos = e;
                } else {
                    done = true;
                }
            },
            None => {
                done = true;
            },
        }
    }
    if skip_whitespace(&s, pos) == s.len() {
        Some(parts)
    } else {
        None
    }
}

} // verus!

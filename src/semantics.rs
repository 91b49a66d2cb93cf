use vstd::prelude::*;
use crate::model::{ChoiceV, CommandV, ExprV, NodeV, PartDeclV, PartV, ValueV};

verus! {

/// Variable bindings in declaration order; the first entry with a name is its binding.
pub type Bindings = Seq<(Seq<char>, ValueV)>;

/// Nodes in declaration order; the first entry with an id is that node.
pub type NodeTable = Seq<(Seq<char>, NodeV)>;

pub open spec fn start_id() -> Seq<char> {
    seq!['S', 'T', 'A', 'R', 'T']
}

pub open spec fn keys<V>(s: Seq<(Seq<char>, V)>) -> Seq<Seq<char>> {
    s.map_values(|e: (Seq<char>, V)| e.0)
}

/// The first position at or after `i` that holds `k`, or `ks.len()` if there is none.
pub open spec fn key_pos(ks: Seq<Seq<char>>, k: Seq<char>, i: int) -> int
    decreases ks.len() - i,
{
    if i < 0 || i >= ks.len() {
        ks.len() as int
    } else if ks[i] == k {
        i
    } else {
        key_pos(ks, k, i + 1)
    }
}

pub proof fn lemma_key_pos(ks: Seq<Seq<char>>, k: Seq<char>, i: int)
    requires
        0 <= i <= ks.len(),
    ensures
        i <= key_pos(ks, k, i) <= ks.len(),
        key_pos(ks, k, i) < ks.len() ==> ks[key_pos(ks, k, i)] == k,
        key_pos(ks, k, i) < ks.len() <==> exists|j: int| i <= j < ks.len() && ks[j] == k,
        forall|j: int| i <= j < key_pos(ks, k, i) ==> ks[j] != k,
    decreases ks.len() - i,
{
    if i < ks.len() {
        lemma_key_pos(ks, k, i + 1);
        if ks[i] != k {
            if exists|j: int| i <= j < ks.len() && ks[j] == k {
                let j = choose|j: int| i <= j < ks.len() && ks[j] == k;
                assert(i + 1 <= j);
            }
        }
    }
}

/// `key_pos` finds `k` at `p` when `p` holds it and no position from `i` before it does.
pub proof fn lemma_key_pos_at(ks: Seq<Seq<char>>, k: Seq<char>, i: int, p: int)
    requires
        0 <= i <= p <= ks.len(),
        p < ks.len() ==> ks[p] == k,
        forall|j: int| i <= j < p ==> ks[j] != k,
    ensures
        key_pos(ks, k, i) == p,
    decreases p - i,
{
    if i < p {
        lemma_key_pos_at(ks, k, i + 1, p);
    }
}

pub open spec fn lookup<V>(s: Seq<(Seq<char>, V)>, k: Seq<char>) -> Option<V> {
    let p = key_pos(keys(s), k, 0);
    if p < s.len() {
        Some(s[p].1)
    } else {
        None
    }
}

pub open spec fn has_key<V>(s: Seq<(Seq<char>, V)>, k: Seq<char>) -> bool {
    lookup(s, k) is Some
}

/// Binds `k` to `v`: an existing binding is overwritten in place, otherwise one is appended.
pub open spec fn insert<V>(s: Seq<(Seq<char>, V)>, k: Seq<char>, v: V) -> Seq<(Seq<char>, V)> {
    let p = key_pos(keys(s), k, 0);
    if p < s.len() {
        s.update(p, (k, v))
    } else {
        s.push((k, v))
    }
}

/// No two entries share a key.
pub open spec fn unique_keys<V>(s: Seq<(Seq<char>, V)>) -> bool {
    forall|i: int, j: int| 0 <= i < j < s.len() ==> s[i].0 != s[j].0
}

/// Binding a name keeps the keys unique.
pub proof fn lemma_insert_unique<V>(s: Seq<(Seq<char>, V)>, k: Seq<char>, v: V)
    requires
        unique_keys(s),
    ensures
        unique_keys(insert(s, k, v)),
{
    let ks = keys(s);
    lemma_key_pos(ks, k, 0);
    let t = insert(s, k, v);
    if key_pos(ks, k, 0) >= s.len() {
        assert forall|i: int, j: int| 0 <= i < j < t.len() implies t[i].0 != t[j].0 by {
            if j == s.len() {
                assert(ks[i] == s[i].0);
            }
        }
    }
}

// ---------------------------------------------------------------------------
// Building an engine from declarations
// ---------------------------------------------------------------------------

pub open spec fn declared_vars(decls: Seq<PartDeclV>, n: int) -> Bindings
    decreases n,
{
    if n <= 0 {
        seq![]
    } else {
        let b = declared_vars(decls, n - 1);
        match decls[n - 1] {
            PartDeclV::Var { name, value } => insert(b, name, value),
            PartDeclV::Node { .. } => b,
        }
    }
}

pub open spec fn declared_nodes(decls: Seq<PartDeclV>, n: int) -> NodeTable
    decreases n,
{
    if n <= 0 {
        seq![]
    } else {
        let t = declared_nodes(decls, n - 1);
        match decls[n - 1] {
            PartDeclV::Node { id, node } => insert(t, id, node),
            PartDeclV::Var { .. } => t,
        }
    }
}

// ---------------------------------------------------------------------------
// Semantic errors
// ---------------------------------------------------------------------------

pub enum ErrV {
    MissingStartNode,
    BadReferenceInOption { parent: Seq<char>, bad_id: Seq<char> },
    BadReferenceInString { parent: Seq<char>, bad_name: Seq<char> },
    BadReferenceInExpression { parent: Seq<char>, bad_name: Seq<char> },
    InvalidExpression { parent: Seq<char>, expression: ExprV },
    BadReferenceInCommand { parent: Seq<char>, bad_name: Seq<char> },
    InvalidCommand { parent: Seq<char>, command: CommandV },
}

/// The names in a template that no declared variable has, in order.
pub open spec fn bad_names_in_string(vars: Bindings, t: Seq<PartV>) -> Seq<Seq<char>>
    decreases t.len(),
{
    if t.len() == 0 {
        seq![]
    } else {
        let rest = bad_names_in_string(vars, t.drop_last());
        match t.last() {
            PartV::Name(n) => if has_key(vars, n) {
                rest
            } else {
                rest.push(n)
            },
            PartV::Lit(_) => rest,
        }
    }
}

pub open spec fn bad_names_in_expression(vars: Bindings, e: ExprV) -> Seq<Seq<char>>
    decreases e,
{
    match e {
        ExprV::Val(ValueV::Str(t)) => bad_names_in_string(vars, t),
        ExprV::Val(_) => seq![],
        ExprV::Name(n) => if has_key(vars, n) {
            seq![]
        } else {
            seq![n]
        },
        ExprV::Eq(l, r) => bad_names_in_expression(vars, *l) + bad_names_in_expression(vars, *r),
        ExprV::Ne(l, r) => bad_names_in_expression(vars, *l) + bad_names_in_expression(vars, *r),
        ExprV::Gt(l, r) => bad_names_in_expression(vars, *l) + bad_names_in_expression(vars, *r),
        ExprV::Lt(l, r) => bad_names_in_expression(vars, *l) + bad_names_in_expression(vars, *r),
    }
}

/// An operand that is statically an integer: an integer literal, or a name declared as one.
pub open spec fn static_int(vars: Bindings, e: ExprV) -> bool {
    match e {
        ExprV::Val(ValueV::Int(_)) => true,
        ExprV::Name(n) => match lookup(vars, n) {
            Some(ValueV::Int(_)) => true,
            _ => false,
        },
        _ => false,
    }
}

pub open spec fn expression_valid(vars: Bindings, e: ExprV) -> bool
    decreases e,
{
    match e {
        ExprV::Val(_) => true,
        ExprV::Name(_) => true,
        ExprV::Eq(l, r) => expression_valid(vars, *l) && expression_valid(vars, *r),
        ExprV::Ne(l, r) => expression_valid(vars, *l) && expression_valid(vars, *r),
        ExprV::Gt(l, r) => static_int(vars, *l) && static_int(vars, *r) && expression_valid(
            vars,
            *l,
        ) && expression_valid(vars, *r),
        ExprV::Lt(l, r) => static_int(vars, *l) && static_int(vars, *r) && expression_valid(
            vars,
            *l,
        ) && expression_valid(vars, *r),
    }
}

pub open spec fn bad_names_in_command(vars: Bindings, c: CommandV) -> Seq<Seq<char>> {
    match c {
        CommandV::Assign { name, value } => {
            let first: Seq<Seq<char>> = if has_key(vars, name) {
                seq![]
            } else {
                seq![name]
            };
            match value {
                ValueV::Str(t) => first + bad_names_in_string(vars, t),
                _ => first,
            }
        },
    }
}

/// Whether two values are of the same kind: both integers, both booleans or both strings.
pub open spec fn same_kind(a: ValueV, b: ValueV) -> bool {
    match (a, b) {
        (ValueV::Int(_), ValueV::Int(_)) => true,
        (ValueV::Bool(_), ValueV::Bool(_)) => true,
        (ValueV::Str(_), ValueV::Str(_)) => true,
        _ => false,
    }
}

/// A command is valid when it assigns a declared variable a value of the kind the
/// variable was declared with, and every name in a string value resolves.
pub open spec fn command_valid(vars: Bindings, c: CommandV) -> bool {
    match c {
        CommandV::Assign { name, value } => match lookup(vars, name) {
            Some(d) => same_kind(d, value) && match value {
                ValueV::Str(t) => bad_names_in_string(vars, t).len() == 0,
                _ => true,
            },
            None => false,
        },
    }
}

pub open spec fn string_errors(parent: Seq<char>, names: Seq<Seq<char>>) -> Seq<ErrV> {
    names.map_values(|n: Seq<char>| ErrV::BadReferenceInString { parent, bad_name: n })
}

pub open spec fn expression_errors(parent: Seq<char>, names: Seq<Seq<char>>) -> Seq<ErrV> {
    names.map_values(|n: Seq<char>| ErrV::BadReferenceInExpression { parent, bad_name: n })
}

pub open spec fn command_errors(parent: Seq<char>, names: Seq<Seq<char>>) -> Seq<ErrV> {
    names.map_values(|n: Seq<char>| ErrV::BadReferenceInCommand { parent, bad_name: n })
}

pub open spec fn requirement_errors(vars: Bindings, parent: Seq<char>, e: ExprV) -> Seq<ErrV> {
    expression_errors(parent, bad_names_in_expression(vars, e)) + if expression_valid(vars, e) {
        seq![]
    } else {
        seq![ErrV::InvalidExpression { parent, expression: e }]
    }
}

pub open spec fn command_all_errors(vars: Bindings, parent: Seq<char>, c: CommandV) -> Seq<
    ErrV,
> {
    command_errors(parent, bad_names_in_command(vars, c)) + if command_valid(vars, c) {
        seq![]
    } else {
        seq![ErrV::InvalidCommand { parent, command: c }]
    }
}

/// Every defect of one choice, in the order: text, target, requirement, command.
pub open spec fn choice_errors(vars: Bindings, nodes: NodeTable, parent: Seq<char>, c: ChoiceV) -> Seq<
    ErrV,
> {
    string_errors(parent, bad_names_in_string(vars, c.text)) + (if has_key(nodes, c.target) {
        seq![]
    } else {
        seq![ErrV::BadReferenceInOption { parent, bad_id: c.target }]
    }) + (match c.requirement {
        Some(e) => requirement_errors(vars, parent, e),
        None => seq![],
    }) + (match c.command {
        Some(cmd) => command_all_errors(vars, parent, cmd),
        None => seq![],
    })
}

pub open spec fn choices_errors(
    vars: Bindings,
    nodes: NodeTable,
    parent: Seq<char>,
    cs: Seq<ChoiceV>,
    n: int,
) -> Seq<ErrV>
    decreases n,
{
    if n <= 0 {
        seq![]
    } else {
        choices_errors(vars, nodes, parent, cs, n - 1) + choice_errors(vars, nodes, parent, cs[n - 1])
    }
}

pub open spec fn node_errors(vars: Bindings, nodes: NodeTable, id: Seq<char>, node: NodeV) -> Seq<
    ErrV,
> {
    string_errors(id, bad_names_in_string(vars, node.text)) + choices_errors(
        vars,
        nodes,
        id,
        node.choices,
        node.choices.len() as int,
    )
}

pub open spec fn nodes_errors(vars: Bindings, nodes: NodeTable, n: int) -> Seq<ErrV>
    decreases n,
{
    if n <= 0 {
        seq![]
    } else {
        nodes_errors(vars, nodes, n - 1) + node_errors(vars, nodes, nodes[n - 1].0, nodes[n - 1].1)
    }
}

/// Every semantic defect of a story: a missing start node first, then each node's in order.
pub open spec fn story_errors(vars: Bindings, nodes: NodeTable) -> Seq<ErrV> {
    (if has_key(nodes, start_id()) {
        seq![]
    } else {
        seq![ErrV::MissingStartNode]
    }) + nodes_errors(vars, nodes, nodes.len() as int)
}

// ---------------------------------------------------------------------------
// Evaluation
// ---------------------------------------------------------------------------

pub open spec fn digit_char(d: nat) -> char {
    if d == 0 { '0' }
    else if d == 1 { '1' }
    else if d == 2 { '2' }
    else if d == 3 { '3' }
    else if d == 4 { '4' }
    else if d == 5 { '5' }
    else if d == 6 { '6' }
    else if d == 7 { '7' }
    else if d == 8 { '8' }
    else { '9' }
}

pub open spec fn digits_of(n: nat) -> Seq<char>
    decreases n,
{
    if n < 10 {
        seq![digit_char(n)]
    } else {
        digits_of(n / 10).push(digit_char(n % 10))
    }
}

/// Decimal text of an integer, with a leading `-` when negative.
pub open spec fn decimal(i: int) -> Seq<char> {
    if i < 0 {
        seq!['-'] + digits_of((-i) as nat)
    } else {
        digits_of(i as nat)
    }
}

pub open spec fn bool_text(b: bool) -> Seq<char> {
    if b {
        seq!['t', 'r', 'u', 'e']
    } else {
        seq!['f', 'a', 'l', 's', 'e']
    }
}

/// Rendered text of a template. A string variable's own template is rendered with one
/// less unit of `depth`; where the depth runs out the reference renders as nothing.
pub open spec fn render(vars: Bindings, t: Seq<PartV>, depth: nat) -> Seq<char>
    decreases depth, t.len() + 1,
{
    if t.len() == 0 {
        seq![]
    } else {
        render(vars, t.drop_last(), depth) + part_text(vars, t.last(), depth)
    }
}

pub open spec fn part_text(vars: Bindings, p: PartV, depth: nat) -> Seq<char>
    decreases depth, 0int,
{
    match p {
        PartV::Lit(s) => s,
        PartV::Name(n) => match lookup(vars, n) {
            Some(ValueV::Int(i)) => decimal(i as int),
            Some(ValueV::Bool(b)) => bool_text(b),
            Some(ValueV::Str(t)) => if depth == 0 {
                seq![]
            } else {
                render(vars, t, (depth - 1) as nat)
            },
            None => seq![],
        },
    }
}

/// How deep string variables are expanded: enough for every chain of references
/// without a cycle, since such a chain visits each variable at most once.
pub open spec fn render_depth(vars: Bindings) -> nat {
    vars.len()
}

/// Equality of values: never across kinds; strings compare by rendered text.
pub open spec fn values_equal(vars: Bindings, l: ValueV, r: ValueV) -> bool {
    match (l, r) {
        (ValueV::Int(a), ValueV::Int(b)) => a == b,
        (ValueV::Bool(a), ValueV::Bool(b)) => a == b,
        (ValueV::Str(a), ValueV::Str(b)) => render(vars, a, render_depth(vars)) == render(
            vars,
            b,
            render_depth(vars),
        ),
        _ => false,
    }
}

/// Value of an expression. An unbound name, and an ordering comparison of non-integers,
/// cannot occur in a validated story; they give `false`.
pub open spec fn eval(vars: Bindings, e: ExprV) -> ValueV
    decreases e,
{
    match e {
        ExprV::Val(v) => v,
        ExprV::Name(n) => match lookup(vars, n) {
            Some(v) => v,
            None => ValueV::Bool(false),
        },
        ExprV::Eq(l, r) => ValueV::Bool(values_equal(vars, eval(vars, *l), eval(vars, *r))),
        ExprV::Ne(l, r) => ValueV::Bool(!values_equal(vars, eval(vars, *l), eval(vars, *r))),
        ExprV::Gt(l, r) => match (eval(vars, *l), eval(vars, *r)) {
            (ValueV::Int(a), ValueV::Int(b)) => ValueV::Bool(a > b),
            _ => ValueV::Bool(false),
        },
        ExprV::Lt(l, r) => match (eval(vars, *l), eval(vars, *r)) {
            (ValueV::Int(a), ValueV::Int(b)) => ValueV::Bool(a < b),
            _ => ValueV::Bool(false),
        },
    }
}

/// Effect of a command on the bindings; a name that is not bound is left alone.
pub open spec fn apply_command(vars: Bindings, c: CommandV) -> Bindings {
    match c {
        CommandV::Assign { name, value } => if has_key(vars, name) {
            insert(vars, name, value)
        } else {
            vars
        },
    }
}

/// Whether a choice is shown: it has no requirement, or the requirement is truthy.
pub open spec fn shown(vars: Bindings, c: ChoiceV) -> bool {
    match c.requirement {
        None => true,
        Some(e) => crate::model::truthy(eval(vars, e)),
    }
}

pub struct ChoiceViewV {
    pub display_text: Seq<char>,
    pub id: Seq<char>,
}

pub struct NodeViewV {
    pub display_text: Seq<char>,
    pub choices: Seq<ChoiceViewV>,
    pub game_over: bool,
}

pub open spec fn visible_choices(vars: Bindings, cs: Seq<ChoiceV>, n: int) -> Seq<ChoiceViewV>
    decreases n,
{
    if n <= 0 {
        seq![]
    } else {
        let rest = visible_choices(vars, cs, n - 1);
        if shown(vars, cs[n - 1]) {
            rest.push(
                ChoiceViewV {
                    display_text: render(vars, cs[n - 1].text, render_depth(vars)),
                    id: cs[n - 1].target,
                },
            )
        } else {
            rest
        }
    }
}

/// What a player sees at a node.
pub open spec fn node_view(vars: Bindings, node: NodeV) -> NodeViewV {
    NodeViewV {
        display_text: render(vars, node.text, render_depth(vars)),
        choices: visible_choices(vars, node.choices, node.choices.len() as int),
        game_over: node.choices.len() == 0,
    }
}

pub open spec fn targets(cs: Seq<ChoiceV>) -> Seq<Seq<char>> {
    cs.map_values(|c: ChoiceV| c.target)
}

} // verus!

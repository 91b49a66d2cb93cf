use vstd::prelude::*;
use crate::model::{ChoiceV, ExprV, PartV, ValueV, truthy};
use crate::semantics::{
    apply_command, same_kind, string_errors, command_all_errors, requirement_errors,
    insert, key_pos, keys, lemma_key_pos, lemma_key_pos_at, lookup,
    Bindings, ChoiceViewV, ErrV, NodeTable, bad_names_in_command, bad_names_in_expression,
    bad_names_in_string, choice_errors, choices_errors, command_valid, eval, expression_valid,
    has_key, node_errors, nodes_errors, render, render_depth, shown, start_id, static_int,
    story_errors, values_equal, visible_choices,
};

verus! {

/// Every check of one choice passes: its text names declared variables, its target is
/// a declared node, its requirement resolves and is well typed, and its command
/// assigns a declared variable a value whose names resolve.
pub open spec fn choice_sound(vars: Bindings, nodes: NodeTable, c: ChoiceV) -> bool {
    &&& bad_names_in_string(vars, c.text).len() == 0
    &&& has_key(nodes, c.target)
    &&& match c.requirement {
        Some(e) => bad_names_in_expression(vars, e).len() == 0 && expression_valid(vars, e),
        None => true,
    }
    &&& match c.command {
        Some(x) => bad_names_in_command(vars, x).len() == 0 && command_valid(vars, x),
        None => true,
    }
}

/// Every check of one node passes: its text and each of its choices.
pub open spec fn node_sound(vars: Bindings, nodes: NodeTable, i: int) -> bool {
    &&& bad_names_in_string(vars, nodes[i].1.text).len() == 0
    &&& forall|j: int|
        0 <= j < nodes[i].1.choices.len() ==> #[trigger] choice_sound(
            vars,
            nodes,
            nodes[i].1.choices[j],
        )
}

/// A story passes every check: a node "START" exists and every node is sound.
pub open spec fn story_sound(vars: Bindings, nodes: NodeTable) -> bool {
    &&& has_key(nodes, start_id())
    &&& forall|i: int| 0 <= i < nodes.len() ==> #[trigger] node_sound(vars, nodes, i)
}

proof fn lemma_choice_errors_empty(vars: Bindings, nodes: NodeTable, p: Seq<char>, c: ChoiceV)
    ensures
        choice_errors(vars, nodes, p, c).len() == 0 <==> choice_sound(vars, nodes, c),
{
}

proof fn lemma_choices_errors_empty(
    vars: Bindings,
    nodes: NodeTable,
    p: Seq<char>,
    cs: Seq<ChoiceV>,
    m: int,
)
    requires
        0 <= m <= cs.len(),
    ensures
        choices_errors(vars, nodes, p, cs, m).len() == 0 <==> forall|j: int|
            0 <= j < m ==> #[trigger] choice_sound(vars, nodes, cs[j]),
    decreases m,
{
    if m > 0 {
        lemma_choices_errors_empty(vars, nodes, p, cs, m - 1);
        lemma_choice_errors_empty(vars, nodes, p, cs[m - 1]);
        if choices_errors(vars, nodes, p, cs, m).len() == 0 {
            assert forall|j: int| 0 <= j < m implies #[trigger] choice_sound(vars, nodes, cs[j]) by {
                if j < m - 1 {
                    assert(choice_sound(vars, nodes, cs[j]));
                }
            }
        }
    }
}

proof fn lemma_nodes_errors_empty(vars: Bindings, nodes: NodeTable, m: int)
    requires
        0 <= m <= nodes.len(),
    ensures
        nodes_errors(vars, nodes, m).len() == 0 <==> forall|i: int|
            0 <= i < m ==> #[trigger] node_sound(vars, nodes, i),
    decreases m,
{
    if m > 0 {
        lemma_nodes_errors_empty(vars, nodes, m - 1);
        let (id, node) = nodes[m - 1];
        lemma_choices_errors_empty(vars, nodes, id, node.choices, node.choices.len() as int);
        assert(node_errors(vars, nodes, id, node).len() == 0 <==> node_sound(vars, nodes, m - 1));
        if nodes_errors(vars, nodes, m).len() == 0 {
            assert forall|i: int| 0 <= i < m implies #[trigger] node_sound(vars, nodes, i) by {
                if i < m - 1 {
                    assert(node_sound(vars, nodes, i));
                }
            }
        }
    }
}

/// A story has no defect exactly when a node "START" exists and every reference and
/// type check passes; so an engine is built exactly then.
pub proof fn lemma_no_errors_iff_sound(vars: Bindings, nodes: NodeTable)
    ensures
        story_errors(vars, nodes).len() == 0 <==> story_sound(vars, nodes),
{
    lemma_nodes_errors_empty(vars, nodes, nodes.len() as int);
}

proof fn lemma_choices_errors_has(
    vars: Bindings,
    nodes: NodeTable,
    p: Seq<char>,
    cs: Seq<ChoiceV>,
    m: int,
    j: int,
    e: ErrV,
)
    requires
        0 <= j < m <= cs.len(),
        choice_errors(vars, nodes, p, cs[j]).contains(e),
    ensures
        choices_errors(vars, nodes, p, cs, m).contains(e),
    decreases m,
{
    let whole = choices_errors(vars, nodes, p, cs, m);
    let front = choices_errors(vars, nodes, p, cs, m - 1);
    let last = choice_errors(vars, nodes, p, cs[m - 1]);
    assert(whole == front + last);
    if j < m - 1 {
        lemma_choices_errors_has(vars, nodes, p, cs, m - 1, j, e);
        let k = choose|k: int| 0 <= k < front.len() && front[k] == e;
        assert(whole[k] == e);
    } else {
        let k = choose|k: int| 0 <= k < last.len() && last[k] == e;
        assert(whole[front.len() + k] == e);
    }
}

proof fn lemma_nodes_errors_has(vars: Bindings, nodes: NodeTable, m: int, i: int, e: ErrV)
    requires
        0 <= i < m <= nodes.len(),
        node_errors(vars, nodes, nodes[i].0, nodes[i].1).contains(e),
    ensures
        nodes_errors(vars, nodes, m).contains(e),
    decreases m,
{
    let whole = nodes_errors(vars, nodes, m);
    let front = nodes_errors(vars, nodes, m - 1);
    let last = node_errors(vars, nodes, nodes[m - 1].0, nodes[m - 1].1);
    assert(whole == front + last);
    if i < m - 1 {
        lemma_nodes_errors_has(vars, nodes, m - 1, i, e);
        let k = choose|k: int| 0 <= k < front.len() && front[k] == e;
        assert(whole[k] == e);
    } else {
        let k = choose|k: int| 0 <= k < last.len() && last[k] == e;
        assert(whole[front.len() + k] == e);
    }
}

/// A choice whose target is not a declared node gives a `BadReferenceInOption` record
/// naming its node and the target, so no engine is built.
pub proof fn lemma_bad_target_reported(vars: Bindings, nodes: NodeTable, i: int, j: int)
    requires
        0 <= i < nodes.len(),
        0 <= j < nodes[i].1.choices.len(),
        !has_key(nodes, nodes[i].1.choices[j].target),
    ensures
        story_errors(vars, nodes).contains(
            ErrV::BadReferenceInOption { parent: nodes[i].0, bad_id: nodes[i].1.choices[j].target },
        ),
        story_errors(vars, nodes).len() > 0,
{
    let (id, node) = nodes[i];
    let c = node.choices[j];
    let e = ErrV::BadReferenceInOption { parent: id, bad_id: c.target };
    let ce = choice_errors(vars, nodes, id, c);
    let a = crate::semantics::string_errors(id, bad_names_in_string(vars, c.text));
    assert(ce[a.len() as int] == e);
    lemma_choices_errors_has(vars, nodes, id, node.choices, node.choices.len() as int, j, e);
    let ne = node_errors(vars, nodes, id, node);
    let head = crate::semantics::string_errors(id, bad_names_in_string(vars, node.text));
    let tail = choices_errors(vars, nodes, id, node.choices, node.choices.len() as int);
    assert(ne == head + tail);
    let k = choose|k: int| 0 <= k < tail.len() && tail[k] == e;
    assert(ne[head.len() + k] == e);
    lemma_nodes_errors_has(vars, nodes, nodes.len() as int, i, e);
    let se = story_errors(vars, nodes);
    let rest = nodes_errors(vars, nodes, nodes.len() as int);
    let k2 = choose|k: int| 0 <= k < rest.len() && rest[k] == e;
    assert(se[se.len() - rest.len() + k2] == e);
}

/// In a story that passes every check, the target of each choice of a node is itself a
/// declared node, so a session that moves along a choice never reaches a missing node.
pub proof fn lemma_targets_resolve(
    vars: Bindings,
    nodes: NodeTable,
    id: Seq<char>,
    node: crate::model::NodeV,
    j: int,
)
    requires
        story_sound(vars, nodes),
        lookup(nodes, id) == Some(node),
        0 <= j < node.choices.len(),
    ensures
        has_key(nodes, node.choices[j].target),
{
    let p = key_pos(keys(nodes), id, 0);
    lemma_key_pos(keys(nodes), id, 0);
    assert(node_sound(vars, nodes, p));
    assert(choice_sound(vars, nodes, nodes[p].1.choices[j]));
}

/// Binding a name again replaces what it was bound to: the later declaration wins.
pub proof fn lemma_later_binding_wins<V>(s: Seq<(Seq<char>, V)>, k: Seq<char>, v: V)
    ensures
        lookup(insert(s, k, v), k) == Some(v),
{
    let ks = keys(s);
    let p = key_pos(ks, k, 0);
    lemma_key_pos(ks, k, 0);
    let t = insert(s, k, v);
    if p < s.len() {
        assert(keys(t) =~= ks.update(p, k));
        lemma_key_pos_at(keys(t), k, 0, p);
    } else {
        assert(keys(t) =~= ks.push(k));
        assert forall|j: int| 0 <= j < s.len() implies keys(t)[j] != k by {
            if ks[j] == k {
                assert(exists|m: int| 0 <= m < ks.len() && ks[m] == k);
            }
        }
        lemma_key_pos_at(keys(t), k, 0, s.len() as int);
    }
}

/// An operand made of one primary: a literal or a name.
pub open spec fn is_primary(e: ExprV) -> bool {
    e is Val || e is Name
}

/// An ordering comparison of two primaries passes the checks exactly when both are
/// statically integers: integer literals, or names declared with an integer.
pub proof fn lemma_ordering_needs_ints(vars: Bindings, a: ExprV, b: ExprV)
    requires
        is_primary(a),
        is_primary(b),
    ensures
        expression_valid(vars, ExprV::Gt(Box::new(a), Box::new(b))) <==> static_int(vars, a)
            && static_int(vars, b),
        expression_valid(vars, ExprV::Lt(Box::new(a), Box::new(b))) <==> static_int(vars, a)
            && static_int(vars, b),
{
    reveal_with_fuel(expression_valid, 2);
}

/// Truthiness: zero, `false` and a template without parts are false; any other
/// integer, `true` and a template with parts are true.
pub proof fn lemma_truthiness(i: i32, b: bool, t: Seq<PartV>)
    ensures
        truthy(ValueV::Int(i)) <==> i != 0,
        truthy(ValueV::Bool(b)) <==> b,
        truthy(ValueV::Str(t)) <==> t.len() > 0,
{
}

/// Every choice that is shown comes from an authored choice whose requirement is absent
/// or truthy; a choice with a falsy requirement is never shown.
pub proof fn lemma_visible_choices_are_shown(vars: Bindings, cs: Seq<ChoiceV>, n: int)
    requires
        0 <= n <= cs.len(),
    ensures
        forall|k: int|
            0 <= k < visible_choices(vars, cs, n).len() ==> exists|j: int|
                0 <= j < n && shown(vars, cs[j]) && #[trigger] visible_choices(vars, cs, n)[k]
                    == (ChoiceViewV {
                    display_text: render(vars, cs[j].text, render_depth(vars)),
                    id: cs[j].target,
                }),
        (forall|j: int| 0 <= j < n ==> !#[trigger] shown(vars, cs[j])) ==> visible_choices(
            vars,
            cs,
            n,
        ).len() == 0,
    decreases n,
{
    if n > 0 {
        lemma_visible_choices_are_shown(vars, cs, n - 1);
        let rest = visible_choices(vars, cs, n - 1);
        let all = visible_choices(vars, cs, n);
        assert forall|k: int| 0 <= k < all.len() implies exists|j: int|
            0 <= j < n && shown(vars, cs[j]) && #[trigger] all[k] == (ChoiceViewV {
                display_text: render(vars, cs[j].text, render_depth(vars)),
                id: cs[j].target,
            }) by {
            if k < rest.len() {
                assert(all[k] == rest[k]);
                let j = choose|j: int|
                    0 <= j < n - 1 && shown(vars, cs[j]) && #[trigger] rest[k] == (ChoiceViewV {
                        display_text: render(vars, cs[j].text, render_depth(vars)),
                        id: cs[j].target,
                    });
                assert(0 <= j < n);
            } else {
                assert(shown(vars, cs[n - 1]));
                assert(all[k] == (ChoiceViewV {
                    display_text: render(vars, cs[n - 1].text, render_depth(vars)),
                    id: cs[n - 1].target,
                }));
            }
        }
        if forall|j: int| 0 <= j < n ==> !#[trigger] shown(vars, cs[j]) {
            assert(!shown(vars, cs[n - 1]));
            assert forall|j: int| 0 <= j < n - 1 implies !#[trigger] shown(vars, cs[j]) by {
                assert(0 <= j < n);
            }
        }
    }
}

/// Strings compare by their rendered text: two templates, however written, that render
/// to the same text are equal under `=` and not under `!=`.
pub proof fn lemma_strings_compare_by_text(vars: Bindings, a: Seq<PartV>, b: Seq<PartV>)
    requires
        render(vars, a, render_depth(vars)) == render(vars, b, render_depth(vars)),
    ensures
        eval(
            vars,
            ExprV::Eq(
                Box::new(ExprV::Val(ValueV::Str(a))),
                Box::new(ExprV::Val(ValueV::Str(b))),
            ),
        ) == ValueV::Bool(true),
        eval(
            vars,
            ExprV::Ne(
                Box::new(ExprV::Val(ValueV::Str(a))),
                Box::new(ExprV::Val(ValueV::Str(b))),
            ),
        ) == ValueV::Bool(false),
{
    reveal_with_fuel(eval, 2);
    assert(values_equal(vars, ValueV::Str(a), ValueV::Str(b)));
}


/// A session's bindings agree with the declared ones: the same names in the same order,
/// each bound to a value of its declared kind.
pub open spec fn kinds_agree(declared: Bindings, current: Bindings) -> bool {
    &&& declared.len() == current.len()
    &&& forall|i: int|
        0 <= i < declared.len() ==> #[trigger] declared[i].0 == current[i].0 && same_kind(
            declared[i].1,
            current[i].1,
        )
}

/// A fresh session, whose bindings are a copy of the declared ones, agrees with them.
pub proof fn lemma_fresh_bindings_agree(declared: Bindings)
    ensures
        kinds_agree(declared, declared),
{
    assert forall|i: int| 0 <= i < declared.len() implies #[trigger] declared[i].0
        == declared[i].0 && same_kind(declared[i].1, declared[i].1) by {
        match declared[i].1 {
            ValueV::Int(_) => {},
            ValueV::Bool(_) => {},
            ValueV::Str(_) => {},
        }
    }
}

/// A command that passed the checks keeps a session's bindings in agreement with the
/// declared ones.
pub proof fn lemma_valid_command_keeps_kinds(
    declared: Bindings,
    current: Bindings,
    c: crate::model::CommandV,
)
    requires
        kinds_agree(declared, current),
        command_valid(declared, c),
    ensures
        kinds_agree(declared, apply_command(current, c)),
{
    let crate::model::CommandV::Assign { name, value } = c;
    assert(keys(declared) =~= keys(current));
    let p = key_pos(keys(declared), name, 0);
    lemma_key_pos(keys(declared), name, 0);
    let t = apply_command(current, c);
    assert(t == current.update(p, (name, value)));
    assert forall|i: int| 0 <= i < declared.len() implies #[trigger] declared[i].0 == t[i].0
        && same_kind(declared[i].1, t[i].1) by {
        if i == p {
            assert(keys(declared)[p] == declared[p].0);
        }
    }
}

/// While a session agrees with the declared kinds, an operand that is statically an
/// integer evaluates to an integer; so an ordering comparison that passed the checks
/// never meets a non-integer.
pub proof fn lemma_static_int_evaluates_to_int(declared: Bindings, current: Bindings, e: ExprV)
    requires
        kinds_agree(declared, current),
        static_int(declared, e),
    ensures
        eval(current, e) is Int,
{
    if let ExprV::Name(n) = e {
        assert(keys(declared) =~= keys(current));
        lemma_key_pos(keys(declared), n, 0);
    }
}

/// No records but the first can be a missing start node.
pub open spec fn no_missing_start(s: Seq<ErrV>) -> bool {
    forall|k: int| 0 <= k < s.len() ==> !(#[trigger] s[k] is MissingStartNode)
}

proof fn lemma_no_missing_concat(a: Seq<ErrV>, b: Seq<ErrV>)
    requires
        no_missing_start(a),
        no_missing_start(b),
    ensures
        no_missing_start(a + b),
{
    assert forall|k: int| 0 <= k < (a + b).len() implies !(#[trigger] (a + b)[k] is MissingStartNode) by {
        if k < a.len() {
            assert((a + b)[k] == a[k]);
        } else {
            assert((a + b)[k] == b[k - a.len()]);
        }
    }
}

proof fn lemma_choices_no_missing(
    vars: Bindings,
    nodes: NodeTable,
    p: Seq<char>,
    cs: Seq<ChoiceV>,
    m: int,
)
    ensures
        no_missing_start(choices_errors(vars, nodes, p, cs, m)),
    decreases m,
{
    if m > 0 {
        lemma_choices_no_missing(vars, nodes, p, cs, m - 1);
        let c = cs[m - 1];
        let a = string_errors(p, bad_names_in_string(vars, c.text));
        let b: Seq<ErrV> = if has_key(nodes, c.target) {
            seq![]
        } else {
            seq![ErrV::BadReferenceInOption { parent: p, bad_id: c.target }]
        };
        let d: Seq<ErrV> = match c.requirement {
            Some(e) => requirement_errors(vars, p, e),
            None => seq![],
        };
        let f: Seq<ErrV> = match c.command {
            Some(x) => command_all_errors(vars, p, x),
            None => seq![],
        };
        if let Some(e) = c.requirement {
            lemma_no_missing_concat(
                crate::semantics::expression_errors(p, bad_names_in_expression(vars, e)),
                if expression_valid(vars, e) {
                    seq![]
                } else {
                    seq![ErrV::InvalidExpression { parent: p, expression: e }]
                },
            );
        }
        if let Some(x) = c.command {
            lemma_no_missing_concat(
                crate::semantics::command_errors(p, bad_names_in_command(vars, x)),
                if command_valid(vars, x) {
                    seq![]
                } else {
                    seq![ErrV::InvalidCommand { parent: p, command: x }]
                },
            );
        }
        lemma_no_missing_concat(a, b);
        lemma_no_missing_concat(a + b, d);
        lemma_no_missing_concat(a + b + d, f);
        lemma_no_missing_concat(choices_errors(vars, nodes, p, cs, m - 1), a + b + d + f);
    }
}

proof fn lemma_nodes_no_missing(vars: Bindings, nodes: NodeTable, m: int)
    ensures
        no_missing_start(nodes_errors(vars, nodes, m)),
    decreases m,
{
    if m > 0 {
        lemma_nodes_no_missing(vars, nodes, m - 1);
        let (id, node) = nodes[m - 1];
        lemma_choices_no_missing(vars, nodes, id, node.choices, node.choices.len() as int);
        lemma_no_missing_concat(
            string_errors(id, bad_names_in_string(vars, node.text)),
            choices_errors(vars, nodes, id, node.choices, node.choices.len() as int),
        );
        lemma_no_missing_concat(
            nodes_errors(vars, nodes, m - 1),
            node_errors(vars, nodes, id, node),
        );
    }
}

/// A missing start node is reported exactly when there is no node "START", and then
/// by one record only, the first.
pub proof fn lemma_missing_start_reported_once(vars: Bindings, nodes: NodeTable)
    ensures
        story_errors(vars, nodes).contains(ErrV::MissingStartNode) <==> !has_key(
            nodes,
            start_id(),
        ),
        forall|k: int|
            0 < k < story_errors(vars, nodes).len() ==> !(#[trigger] story_errors(
                vars,
                nodes,
            )[k] is MissingStartNode),
{
    let rest = nodes_errors(vars, nodes, nodes.len() as int);
    lemma_nodes_no_missing(vars, nodes, nodes.len() as int);
    let se = story_errors(vars, nodes);
    if has_key(nodes, start_id()) {
        assert(se =~= rest);
        if se.contains(ErrV::MissingStartNode) {
            let k = choose|k: int| 0 <= k < se.len() && se[k] == ErrV::MissingStartNode;
            assert(rest[k] is MissingStartNode);
        }
    } else {
        assert(se[0] == ErrV::MissingStartNode);
        assert forall|k: int| 0 < k < se.len() implies !(#[trigger] se[k] is MissingStartNode) by {
            assert(se[k] == rest[k - 1]);
        }
    }
}

} // verus!

use vstd::prelude::*;
use crate::model::{
    Choice, Command, Expression, FormatString, FormatStringPart, Node, NodeV, ProgramPart, Value,
    ValueV, decls_view,
};
use crate::semantics::{
    lemma_insert_unique, unique_keys,
    ChoiceViewV, NodeViewV, apply_command, part_text, bool_text, decimal, eval, lemma_key_pos, node_view,
    render, render_depth, shown, targets, values_equal, visible_choices,
    Bindings, ErrV, NodeTable, bad_names_in_command, bad_names_in_expression, bad_names_in_string,
    choice_errors, choices_errors, command_all_errors, command_errors, command_valid,
    declared_nodes, declared_vars, expression_errors, expression_valid, has_key, insert, key_pos,
    keys, lookup, node_errors, nodes_errors, requirement_errors, start_id, static_int,
    story_errors, string_errors,
};

use crate::grammar::p_program;
use crate::parser::parse_program;

verus! {

/// A semantic defect of a script, found while an engine is built.
#[derive(Debug)]
pub enum ParseError {
    MissingStartNode,
    BadReferenceInOption { parent_node_id: String, bad_id: String },
    BadReferenceInString { parent_node_id: String, bad_name: String },
    BadReferenceInExpression { parent_node_id: String, bad_name: String },
    InvalidExpression { parent_node_id: String, expression: Expression },
    BadReferenceInCommand { parent_node_id: String, bad_name: String },
    InvalidCommand { parent_node_id: String, command: Command },
}

impl ParseError {
    pub open spec fn view(&self) -> ErrV {
        match self {
            ParseError::MissingStartNode => ErrV::MissingStartNode,
            ParseError::BadReferenceInOption { parent_node_id, bad_id } => ErrV::BadReferenceInOption {
                parent: parent_node_id@,
                bad_id: bad_id@,
            },
            ParseError::BadReferenceInString { parent_node_id, bad_name } => ErrV::BadReferenceInString {
                parent: parent_node_id@,
                bad_name: bad_name@,
            },
            ParseError::BadReferenceInExpression { parent_node_id, bad_name } => ErrV::BadReferenceInExpression {
                parent: parent_node_id@,
                bad_name: bad_name@,
            },
            ParseError::InvalidExpression { parent_node_id, expression } => ErrV::InvalidExpression {
                parent: parent_node_id@,
                expression: expression.view(),
            },
            ParseError::BadReferenceInCommand { parent_node_id, bad_name } => ErrV::BadReferenceInCommand {
                parent: parent_node_id@,
                bad_name: bad_name@,
            },
            ParseError::InvalidCommand { parent_node_id, command } => ErrV::InvalidCommand {
                parent: parent_node_id@,
                command: command.view(),
            },
        }
    }
}

pub open spec fn errs_view(v: Seq<ParseError>) -> Seq<ErrV> {
    v.map_values(|e: ParseError| e.view())
}

pub open spec fn names_view(v: Seq<String>) -> Seq<Seq<char>> {
    v.map_values(|s: String| s@)
}

pub open spec fn bindings_view(v: Seq<(String, Value)>) -> Bindings {
    v.map_values(|e: (String, Value)| (e.0@, e.1.view()))
}

pub open spec fn table_view(v: Seq<(String, Node)>) -> NodeTable {
    v.map_values(|e: (String, Node)| (e.0@, e.1.view()))
}

pub open spec fn exec_keys<V>(v: Seq<(String, V)>) -> Seq<Seq<char>> {
    v.map_values(|e: (String, V)| e.0@)
}

/// The position of the first entry keyed `k`, or the length when there is none.
fn position_of<V>(v: &Vec<(String, V)>, k: &String) -> (r: usize)
    ensures
        r as int == key_pos(exec_keys(v@), k@, 0),
        r <= v@.len(),
{
    let ghost ks = exec_keys(v@);
    let mut i: usize = 0;
    while i < v.len()
        invariant
            i <= v@.len(),
            ks == exec_keys(v@),
            key_pos(ks, k@, 0) == key_pos(ks, k@, i as int),
        decreases v@.len() - i,
    {
        if v[i].0 == *k {
            return i;
        }
        i = i + 1;
    }
    i
}

/// The kinds of reference error that name a single bad name.
enum RefKind {
    InString,
    InExpression,
    InCommand,
}

spec fn kind_errors(kind: RefKind, parent: Seq<char>, names: Seq<Seq<char>>) -> Seq<ErrV> {
    match kind {
        RefKind::InString => string_errors(parent, names),
        RefKind::InExpression => expression_errors(parent, names),
        RefKind::InCommand => command_errors(parent, names),
    }
}

fn push_bad_names(errs: &mut Vec<ParseError>, kind: RefKind, parent: &String, names: Vec<String>)
    ensures
        errs_view(final(errs)@) == errs_view(old(errs)@) + kind_errors(
            kind,
            parent@,
            names_view(names@),
        ),
{
    let ghost start = errs_view(errs@);
    let ghost ns = names_view(names@);
    let mut i: usize = 0;
    while i < names.len()
        invariant
            i <= names@.len(),
            ns == names_view(names@),
            errs_view(errs@) == start + kind_errors(kind, parent@, ns.subrange(0, i as int)),
        decreases names@.len() - i,
    {
        let e = match kind {
            RefKind::InString => ParseError::BadReferenceInString {
                parent_node_id: parent.clone(),
                bad_name: names[i].clone(),
            },
            RefKind::InExpression => ParseError::BadReferenceInExpression {
                parent_node_id: parent.clone(),
                bad_name: names[i].clone(),
            },
            RefKind::InCommand => ParseError::BadReferenceInCommand {
                parent_node_id: parent.clone(),
                bad_name: names[i].clone(),
            },
        };
        let ghost before = errs@;
        errs.push(e);
        proof {
            assert(errs_view(errs@) =~= errs_view(before).push(e.view()));
            assert(kind_errors(kind, parent@, ns.subrange(0, i + 1)) =~= kind_errors(
                kind,
                parent@,
                ns.subrange(0, i as int),
            ).push(e.view()));
        }
        i = i + 1;
    }
    assert(ns.subrange(0, names@.len() as int) =~= ns);
}

fn push_error(errs: &mut Vec<ParseError>, e: ParseError)
    ensures
        errs_view(final(errs)@) == errs_view(old(errs)@) + seq![e.view()],
{
    let ghost before = errs@;
    errs.push(e);
    assert(errs_view(errs@) =~= errs_view(before) + seq![e.view()]);
}

#[verifier::external_type_specification]
#[verifier::external_body]
pub struct ExInstant(std::time::Instant);

/// Relies on `Instant::now`: reads the monotonic clock; nothing is known of the value.
#[verifier::external_body]
fn clock_now() -> std::time::Instant {
    std::time::Instant::now()
}

/// Relies on `Instant::elapsed`: the time since `t`; nothing is known of the value.
#[verifier::external_body]
fn elapsed_since(t: &std::time::Instant) -> std::time::Duration {
    t.elapsed()
}

/// Relies on `Duration::as_secs`: the whole seconds of a duration.
#[verifier::external_body]
fn whole_seconds(d: &std::time::Duration) -> u64 {
    d.as_secs()
}

/// The usual session lifetime: 24 hours, in seconds.
pub const DEFAULT_SESSION_LIFETIME_SECS: u64 = 86400;

/// Whether a session that has existed for `elapsed_secs` seconds has expired under
/// a lifetime of `lifetime_secs` seconds: once its age reaches the lifetime.
pub fn expired_after(elapsed_secs: u64, lifetime_secs: u64) -> (r: bool)
    ensures
        r == (elapsed_secs >= lifetime_secs),
{
    elapsed_secs >= lifetime_secs
}

/// Per-session mutable game state.
pub struct Session {
    created_at: std::time::Instant,
    variables: Vec<(String, Value)>,
    current_node_id: String,
}

/// Shared, immutable story data, built once and referenced by all sessions.
pub struct Engine {
    default_variables: Vec<(String, Value)>,
    all_nodes: Vec<(String, Node)>,
}

impl Engine {
    /// The declared variables with their initial values.
    pub closed spec fn vars(&self) -> Bindings {
        bindings_view(self.default_variables@)
    }

    /// The declared nodes.
    pub closed spec fn nodes(&self) -> NodeTable {
        table_view(self.all_nodes@)
    }

    fn var_position(&self, name: &String) -> (r: usize)
        ensures
            r as int == key_pos(keys(self.vars()), name@, 0),
            r <= self.default_variables@.len(),
            r < self.default_variables@.len() ==> lookup(self.vars(), name@) == Some(
                self.default_variables@[r as int].1.view(),
            ),
            r == self.default_variables@.len() ==> lookup(self.vars(), name@) is None,
    {
        assert(keys(self.vars()) =~= exec_keys(self.default_variables@));
        position_of(&self.default_variables, name)
    }

    fn node_position(&self, id: &String) -> (r: usize)
        ensures
            r as int == key_pos(keys(self.nodes()), id@, 0),
            r <= self.all_nodes@.len(),
            r < self.all_nodes@.len() ==> lookup(self.nodes(), id@) == Some(
                self.all_nodes@[r as int].1.view(),
            ),
            r == self.all_nodes@.len() ==> lookup(self.nodes(), id@) is None,
    {
        assert(keys(self.nodes()) =~= exec_keys(self.all_nodes@));
        position_of(&self.all_nodes, id)
    }

    fn has_variable(&self, name: &String) -> (r: bool)
        ensures
            r == has_key(self.vars(), name@),
    {
        self.var_position(name) < self.default_variables.len()
    }

    fn bad_names_in_string(&self, s: &FormatString) -> (r: Vec<String>)
        ensures
            names_view(r@) == bad_names_in_string(self.vars(), s.view()),
    {
        let ghost t = s.view();
        let mut bad_names: Vec<String> = Vec::new();
        let mut i: usize = 0;
        while i < s.0.len()
            invariant
                i <= s.0@.len(),
                t == s.view(),
                names_view(bad_names@) == bad_names_in_string(
                    self.vars(),
                    t.subrange(0, i as int),
                ),
            decreases s.0@.len() - i,
        {
            let ghost before = bad_names@;
            assert(t.subrange(0, i + 1).drop_last() =~= t.subrange(0, i as int));
            match &s.0[i] {
                FormatStringPart::Name(name) => {
                    if !self.has_variable(name) {
                        bad_names.push(name.clone());
                        assert(names_view(bad_names@) =~= names_view(before).push(name@));
                    }
                },
                FormatStringPart::Literal(_) => {},
            }
            i = i + 1;
        }
        assert(t.subrange(0, s.0@.len() as int) =~= t);
        bad_names
    }

    fn bad_names_in_expression(&self, expr: &Expression) -> (r: Vec<String>)
        ensures
            names_view(r@) == bad_names_in_expression(self.vars(), expr.view()),
        decreases expr,
    {
        let mut bad_names: Vec<String> = Vec::new();
        match expr {
            Expression::Value(Value::String(s)) => {
                bad_names = self.bad_names_in_string(s);
            },
            Expression::Value(_) => {},
            Expression::Name(name) => {
                if !self.has_variable(name) {
                    bad_names.push(name.clone());
                    assert(names_view(bad_names@) =~= seq![name@]);
                }
            },
            Expression::Equals { left, right }
            | Expression::NotEquals { left, right }
            | Expression::GreaterThan { left, right }
            | Expression::LessThan { left, right } => {
                let mut l = self.bad_names_in_expression(left);
                let mut r = self.bad_names_in_expression(right);
                let ghost (lv, rv) = (l@, r@);
                l.append(&mut r);
                assert(names_view(l@) =~= names_view(lv) + names_view(rv));
                bad_names = l;
            },
        }
        assert(names_view(bad_names@) =~= bad_names_in_expression(self.vars(), expr.view()));
        bad_names
    }

    fn is_static_int(&self, expr: &Expression) -> (r: bool)
        ensures
            r == static_int(self.vars(), expr.view()),
    {
        match expr {
            Expression::Value(Value::Int(_)) => true,
            Expression::Name(name) => {
                let p = self.var_position(name);
                if p < self.default_variables.len() {
                    match &self.default_variables[p].1 {
                        Value::Int(_) => true,
                        _ => false,
                    }
                } else {
                    false
                }
            },
            _ => false,
        }
    }

    /// Whether a requirement is well typed: each ordering comparison has operands that
    /// are statically integers. Unresolved names are reported separately.
    pub fn expression_is_valid(&self, expr: &Expression) -> (r: bool)
        ensures
            r == expression_valid(self.vars(), expr.view()),
        decreases expr,
    {
        match expr {
            Expression::Value(_) => true,
            Expression::Name(_) => true,
            Expression::Equals { left, right } | Expression::NotEquals { left, right } => {
                self.expression_is_valid(left) && self.expression_is_valid(right)
            },
            Expression::GreaterThan { left, right } | Expression::LessThan { left, right } => {
                let left_is_int = self.is_static_int(left);
                let right_is_int = self.is_static_int(right);
                if left_is_int && right_is_int {
                    self.expression_is_valid(left) && self.expression_is_valid(right)
                } else {
                    false
                }
            },
        }
    }

    fn bad_names_in_command(&self, command: &Command) -> (r: Vec<String>)
        ensures
            names_view(r@) == bad_names_in_command(self.vars(), command.view()),
    {
        let mut bad_names: Vec<String> = Vec::new();
        match command {
            Command::Assign { name, value } => {
                if !self.has_variable(name) {
                    bad_names.push(name.clone());
                }
                assert(names_view(bad_names@) =~= (if has_key(self.vars(), name@) {
                    Seq::<Seq<char>>::empty()
                } else {
                    seq![name@]
                }));
                if let Value::String(s) = value {
                    let mut more = self.bad_names_in_string(s);
                    let ghost (bv, mv) = (bad_names@, more@);
                    bad_names.append(&mut more);
                    assert(names_view(bad_names@) =~= names_view(bv) + names_view(mv));
                }
            },
        }
        bad_names
    }

    fn command_is_valid(&self, command: &Command) -> (r: bool)
        ensures
            r == command_valid(self.vars(), command.view()),
    {
        match command {
            Command::Assign { name, value } => {
                let p = self.var_position(name);
                if p == self.default_variables.len() {
                    return false;
                }
                let kind_matches = match (&self.default_variables[p].1, value) {
                    (Value::Int(_), Value::Int(_)) => true,
                    (Value::Bool(_), Value::Bool(_)) => true,
                    (Value::String(_), Value::String(_)) => true,
                    _ => false,
                };
                kind_matches && match value {
                    Value::Int(_) | Value::Bool(_) => true,
                    Value::String(s) => self.bad_names_in_string(s).len() == 0,
                }
            },
        }
    }

    fn choice_errors_into(&self, id: &String, choice: &Choice, errs: &mut Vec<ParseError>)
        ensures
            errs_view(final(errs)@) == errs_view(old(errs)@) + choice_errors(
                self.vars(),
                self.nodes(),
                id@,
                choice.view(),
            ),
    {
        let ghost start = errs_view(errs@);
        let ghost c = choice.view();
        let ghost vars = self.vars();
        let ghost nodes = self.nodes();
        let names = self.bad_names_in_string(&choice.text);
        push_bad_names(errs, RefKind::InString, id, names);
        let ghost a = string_errors(id@, bad_names_in_string(vars, c.text));
        let ghost b: Seq<ErrV> = if has_key(nodes, c.target) {
            seq![]
        } else {
            seq![ErrV::BadReferenceInOption { parent: id@, bad_id: c.target }]
        };
        if self.node_position(&choice.next_node_id) == self.all_nodes.len() {
            push_error(
                errs,
                ParseError::BadReferenceInOption {
                    parent_node_id: id.clone(),
                    bad_id: choice.next_node_id.clone(),
                },
            );
        }
        assert(errs_view(errs@) =~= start + a + b);
        let ghost d: Seq<ErrV> = match c.requirement {
            Some(e) => requirement_errors(vars, id@, e),
            None => seq![],
        };
        if let Some(requirement) = &choice.requirement {
            let names = self.bad_names_in_expression(requirement);
            push_bad_names(errs, RefKind::InExpression, id, names);
            if !self.expression_is_valid(requirement) {
                push_error(
                    errs,
                    ParseError::InvalidExpression {
                        parent_node_id: id.clone(),
                        expression: requirement.duplicate(),
                    },
                );
            }
        }
        assert(errs_view(errs@) =~= start + a + b + d);
        let ghost f: Seq<ErrV> = match c.command {
            Some(cmd) => command_all_errors(vars, id@, cmd),
            None => seq![],
        };
        if let Some(command) = &choice.command {
            let names = self.bad_names_in_command(command);
            push_bad_names(errs, RefKind::InCommand, id, names);
            if !self.command_is_valid(command) {
                push_error(
                    errs,
                    ParseError::InvalidCommand {
                        parent_node_id: id.clone(),
                        command: command.duplicate(),
                    },
                );
            }
        }
        assert(errs_view(errs@) =~= start + a + b + d + f);
        assert(choice_errors(vars, nodes, id@, c) =~= a + b + d + f);
    }

    fn node_errors_into(&self, id: &String, node: &Node, errs: &mut Vec<ParseError>)
        ensures
            errs_view(final(errs)@) == errs_view(old(errs)@) + node_errors(
                self.vars(),
                self.nodes(),
                id@,
                node.view(),
            ),
    {
        let ghost start = errs_view(errs@);
        let ghost nv = node.view();
        let names = self.bad_names_in_string(&node.display_text);
        push_bad_names(errs, RefKind::InString, id, names);
        let ghost a = string_errors(id@, bad_names_in_string(self.vars(), nv.text));
        let mut j: usize = 0;
        while j < node.choices.len()
            invariant
                j <= node.choices@.len(),
                nv == node.view(),
                errs_view(errs@) == start + a + choices_errors(
                    self.vars(),
                    self.nodes(),
                    id@,
                    nv.choices,
                    j as int,
                ),
            decreases node.choices@.len() - j,
        {
            let ghost before = errs_view(errs@);
            self.choice_errors_into(id, &node.choices[j], errs);
            assert(nv.choices[j as int] == node.choices@[j as int].view());
            assert(errs_view(errs@) =~= start + a + choices_errors(
                self.vars(),
                self.nodes(),
                id@,
                nv.choices,
                j + 1,
            ));
            j = j + 1;
        }
    }

    /// Every semantic defect of the story, in order: a missing "START" node first, then
    /// the defects of each node.
    pub fn errors(&self) -> (r: Vec<ParseError>)
        ensures
            errs_view(r@) == story_errors(self.vars(), self.nodes()),
    {
        let mut errors: Vec<ParseError> = Vec::new();
        let start = String::from_str("START");
        proof {
            reveal_strlit("START");
        }
        assert(start@ =~= start_id());
        if self.node_position(&start) == self.all_nodes.len() {
            push_error(&mut errors, ParseError::MissingStartNode);
        }
        let ghost head = errs_view(errors@);
        assert(head =~= (if has_key(self.nodes(), start_id()) {
            Seq::<ErrV>::empty()
        } else {
            seq![ErrV::MissingStartNode]
        }));
        let mut i: usize = 0;
        while i < self.all_nodes.len()
            invariant
                i <= self.all_nodes@.len(),
                errs_view(errors@) == head + nodes_errors(self.vars(), self.nodes(), i as int),
            decreases self.all_nodes@.len() - i,
        {
            let entry = &self.all_nodes[i];
            self.node_errors_into(&entry.0, &entry.1, &mut errors);
            assert(self.nodes()[i as int] == (entry.0@, entry.1.view()));
            assert(errs_view(errors@) =~= head + nodes_errors(
                self.vars(),
                self.nodes(),
                i + 1,
            ));
            i = i + 1;
        }
        errors
    }
}


/// Relies on `i32`'s `ToString` (its `Display`): the decimal digits, with `-` when negative.
#[verifier::external_body]
fn int_text(i: i32) -> (r: String)
    ensures
        r@ == decimal(i as int),
{
    i.to_string()
}

fn bool_string(b: bool) -> (r: String)
    ensures
        r@ == bool_text(b),
{
    proof {
        reveal_strlit("true");
        reveal_strlit("false");
    }
    if b {
        let s = String::from_str("true");
        assert(s@ =~= bool_text(b));
        s
    } else {
        let s = String::from_str("false");
        assert(s@ =~= bool_text(b));
        s
    }
}

/// Replaces the first entry keyed `k`, or appends one.
fn insert_entry<V>(v: &mut Vec<(String, V)>, k: String, x: V)
    ensures
        final(v)@ == (if key_pos(exec_keys(old(v)@), k@, 0) < old(v)@.len() {
            old(v)@.update(key_pos(exec_keys(old(v)@), k@, 0), (k, x))
        } else {
            old(v)@.push((k, x))
        }),
{
    let p = position_of(v, &k);
    if p < v.len() {
        v.set(p, (k, x));
    } else {
        v.push((k, x));
    }
}

/// What a player sees of one visible choice.
pub struct ChoiceView {
    pub display_text: String,
    pub id: String,
}

impl ChoiceView {
    pub open spec fn view(&self) -> ChoiceViewV {
        ChoiceViewV { display_text: self.display_text@, id: self.id@ }
    }
}

/// What a player sees at the current node.
pub struct CurrentNodeView {
    pub display_text: String,
    pub choices: Vec<ChoiceView>,
    pub game_over: bool,
}

pub open spec fn choice_views(v: Seq<ChoiceView>) -> Seq<ChoiceViewV> {
    v.map_values(|c: ChoiceView| c.view())
}

impl CurrentNodeView {
    pub open spec fn view(&self) -> NodeViewV {
        NodeViewV {
            display_text: self.display_text@,
            choices: choice_views(self.choices@),
            game_over: self.game_over,
        }
    }
}

/// The outcome of choosing an option.
pub enum ChoiceResult {
    Success,
    InvalidOption { current_node_id: String, chosen_option: String },
}

/// What is shown when the session's node is not in the story; a session made by
/// the engine that renders it never gets there.
pub open spec fn missing_node_view() -> NodeViewV {
    NodeViewV { display_text: seq![], choices: seq![], game_over: true }
}

impl Session {
    /// The session's variable bindings.
    pub closed spec fn vars(&self) -> Bindings {
        bindings_view(self.variables@)
    }

    /// The id of the node the session is at.
    pub closed spec fn current(&self) -> Seq<char> {
        self.current_node_id@
    }

    /// When the session was created.
    pub closed spec fn created(&self) -> std::time::Instant {
        self.created_at
    }

    /// Whether the session has lived for `lifetime_secs` seconds (by the clock).
    pub fn is_expired(&self, lifetime_secs: u64) -> bool {
        let elapsed = elapsed_since(&self.created_at);
        expired_after(whole_seconds(&elapsed), lifetime_secs)
    }

    /// The id of the node the session is at.
    pub fn current_node_id(&self) -> (r: String)
        ensures
            r@ == self.current(),
    {
        self.current_node_id.clone()
    }

    /// The current value of variable `name`, if the session has it.
    pub fn variable(&self, name: &String) -> (r: Option<Value>)
        ensures
            match r {
                Some(v) => lookup(self.vars(), name@) == Some(v.view()),
                None => lookup(self.vars(), name@) is None,
            },
    {
        let p = self.var_position(name);
        if p < self.variables.len() {
            Some(self.variables[p].1.duplicate())
        } else {
            None
        }
    }

    fn var_position(&self, name: &String) -> (r: usize)
        ensures
            r <= self.variables@.len(),
            r < self.variables@.len() ==> lookup(self.vars(), name@) == Some(
                self.variables@[r as int].1.view(),
            ) && r as int == key_pos(keys(self.vars()), name@, 0),
            r == self.variables@.len() ==> lookup(self.vars(), name@) is None,
    {
        assert(keys(self.vars()) =~= exec_keys(self.variables@));
        position_of(&self.variables, name)
    }
}

impl Engine {
    /// An engine with no variables and no nodes.
    pub fn new() -> (r: Self)
        ensures
            r.vars() == Seq::<(Seq<char>, ValueV)>::empty(),
            r.nodes() == Seq::<(Seq<char>, NodeV)>::empty(),
            unique_keys(r.vars()),
            unique_keys(r.nodes()),
    {
        let r = Engine { default_variables: Vec::new(), all_nodes: Vec::new() };
        assert(r.vars() =~= Seq::<(Seq<char>, ValueV)>::empty());
        assert(r.nodes() =~= Seq::<(Seq<char>, NodeV)>::empty());
        r
    }

    /// Declares node `id`; a node declared earlier with that id is replaced.
    pub fn add_node(&mut self, id: String, node: Node)
        ensures
            final(self).nodes() == insert(old(self).nodes(), id@, node.view()),
            final(self).vars() == old(self).vars(),
            unique_keys(old(self).nodes()) ==> unique_keys(final(self).nodes()),
    {
        proof {
            if unique_keys(self.nodes()) {
                lemma_insert_unique(self.nodes(), id@, node.view());
            }
        }
        let ghost before = self.all_nodes@;
        let ghost (k, v) = (id@, node.view());
        let ghost p = key_pos(exec_keys(before), k, 0);
        assert(keys(table_view(before)) =~= exec_keys(before));
        insert_entry(&mut self.all_nodes, id, node);
        proof {
            lemma_key_pos(exec_keys(before), k, 0);
            if p < before.len() {
                assert(self.nodes() =~= table_view(before).update(p, (k, v)));
            } else {
                assert(self.nodes() =~= table_view(before).push((k, v)));
            }
        }
    }

    /// Declares variable `name`; a declaration earlier with that name is replaced.
    fn add_variable(&mut self, name: String, value: Value)
        ensures
            final(self).vars() == insert(old(self).vars(), name@, value.view()),
            final(self).nodes() == old(self).nodes(),
            unique_keys(old(self).vars()) ==> unique_keys(final(self).vars()),
    {
        proof {
            if unique_keys(self.vars()) {
                lemma_insert_unique(self.vars(), name@, value.view());
            }
        }
        let ghost before = self.default_variables@;
        let ghost (k, v) = (name@, value.view());
        let ghost p = key_pos(exec_keys(before), k, 0);
        assert(keys(bindings_view(before)) =~= exec_keys(before));
        insert_entry(&mut self.default_variables, name, value);
        proof {
            lemma_key_pos(exec_keys(before), k, 0);
            if p < before.len() {
                assert(self.vars() =~= bindings_view(before).update(p, (k, v)));
            } else {
                assert(self.vars() =~= bindings_view(before).push((k, v)));
            }
        }
    }

    /// Builds an engine from parsed declarations. Later declarations of a name or id
    /// replace earlier ones. The engine is returned exactly when the story has no
    /// semantic defect; otherwise every defect is returned.
    pub fn from_parts(parts: &Vec<ProgramPart>) -> (r: Result<Self, Vec<ParseError>>)
        ensures
            ({
                let d = decls_view(parts@);
                let vars = declared_vars(d, d.len() as int);
                let nodes = declared_nodes(d, d.len() as int);
                match r {
                    Ok(e) => story_errors(vars, nodes).len() == 0 && e.vars() == vars
                        && e.nodes() == nodes && unique_keys(e.vars()) && unique_keys(
                        e.nodes(),
                    ),
                    Err(errs) => story_errors(vars, nodes).len() > 0 && errs_view(errs@)
                        == story_errors(vars, nodes),
                }
            }),
    {
        let ghost d = decls_view(parts@);
        let mut engine = Engine::new();
        let mut i: usize = 0;
        while i < parts.len()
            invariant
                i <= parts@.len(),
                d == decls_view(parts@),
                engine.vars() == declared_vars(d, i as int),
                engine.nodes() == declared_nodes(d, i as int),
                unique_keys(engine.vars()),
                unique_keys(engine.nodes()),
            decreases parts@.len() - i,
        {
            match &parts[i] {
                ProgramPart::VariableDefinition { name, value } => {
                    engine.add_variable(name.clone(), value.duplicate());
                },
                ProgramPart::NodeDefinition { id, node } => {
                    engine.add_node(id.clone(), node.duplicate());
                },
            }
            i = i + 1;
        }
        let errors = engine.errors();
        if errors.len() == 0 {
            Ok(engine)
        } else {
            Err(errors)
        }
    }

    /// Builds an engine from script text that parses (a script that does not parse
    /// must not start an engine; callers test it with `parse_program`). The engine is
    /// returned exactly when the story has no semantic defect; otherwise every defect is.
    pub fn from_program(source: &str) -> (r: Result<Self, Vec<ParseError>>)
        requires
            p_program(source@) is Some,
        ensures
            ({
                let d = p_program(source@)->0;
                let vars = declared_vars(d, d.len() as int);
                let nodes = declared_nodes(d, d.len() as int);
                match r {
                    Ok(e) => story_errors(vars, nodes).len() == 0 && e.vars() == vars
                        && e.nodes() == nodes,
                    Err(errs) => story_errors(vars, nodes).len() > 0 && errs_view(errs@)
                        == story_errors(vars, nodes),
                }
            }),
    {
        match parse_program(source) {
            Some(parts) => Engine::from_parts(&parts),
            None => {
                assert(false);
                Err(Vec::new())
            },
        }
    }

    /// Starts a session at node "START" with a copy of the declared variables.
    pub fn new_session(&self) -> (r: Session)
        ensures
            r.vars() == self.vars(),
            r.current() == start_id(),
            unique_keys(self.vars()) ==> unique_keys(r.vars()),
    {
        let mut variables: Vec<(String, Value)> = Vec::new();
        let mut i: usize = 0;
        while i < self.default_variables.len()
            invariant
                i <= self.default_variables@.len(),
                variables@.len() == i,
                forall|j: int|
                    0 <= j < i ==> #[trigger] variables@[j].0@ == self.default_variables@[j].0@
                        && variables@[j].1.view() == self.default_variables@[j].1.view(),
            decreases self.default_variables@.len() - i,
        {
            let entry = &self.default_variables[i];
            variables.push((entry.0.clone(), entry.1.duplicate()));
            i = i + 1;
        }
        let current_node_id = String::from_str("START");
        proof {
            reveal_strlit("START");
        }
        let r = Session { created_at: clock_now(), variables, current_node_id };
        assert(r.vars() =~= self.vars());
        assert(r.current() =~= start_id());
        r
    }

    fn value_to_string(&self, session: &Session, value: &Value, depth: usize) -> (r: String)
        ensures
            r@ == (match value.view() {
                ValueV::Int(i) => decimal(i as int),
                ValueV::Bool(b) => bool_text(b),
                ValueV::Str(t) => if depth == 0 {
                    Seq::<char>::empty()
                } else {
                    render(session.vars(), t, (depth - 1) as nat)
                },
            }),
        decreases depth, 0int,
    {
        match value {
            Value::Int(i) => int_text(*i),
            Value::Bool(b) => bool_string(*b),
            Value::String(s) => {
                if depth == 0 {
                    String::new()
                } else {
                    self.evaluate_string(session, s, depth - 1)
                }
            },
        }
    }

    /// Renders a template against the session's bindings, expanding string
    /// variables at most `depth` levels deep.
    fn evaluate_string(&self, session: &Session, input: &FormatString, depth: usize) -> (r: String)
        ensures
            r@ == render(session.vars(), input.view(), depth as nat),
        decreases depth, 1int,
    {
        let ghost t = input.view();
        let ghost vars = session.vars();
        let mut result = String::new();
        let mut i: usize = 0;
        while i < input.0.len()
            invariant
                i <= input.0@.len(),
                t == input.view(),
                vars == session.vars(),
                result@ == render(vars, t.subrange(0, i as int), depth as nat),
            decreases input.0@.len() - i,
        {
            assert(t.subrange(0, i + 1).drop_last() =~= t.subrange(0, i as int));
            assert(t.subrange(0, i + 1).last() == input.0@[i as int].view());
            let ghost before = result@;
            let ghost piece = part_text(vars, input.0@[i as int].view(), depth as nat);
            match &input.0[i] {
                FormatStringPart::Literal(s) => {
                    result.append(s.as_str());
                },
                FormatStringPart::Name(name) => {
                    let p = session.var_position(name);
                    if p < session.variables.len() {
                        let text = self.value_to_string(session, &session.variables[p].1, depth);
                        result.append(text.as_str());
                    }
                },
            }
            assert(result@ =~= before + piece);
            i = i + 1;
        }
        assert(t.subrange(0, input.0@.len() as int) =~= t);
        result
    }

    fn render_text(&self, session: &Session, input: &FormatString) -> (r: String)
        ensures
            r@ == render(session.vars(), input.view(), render_depth(session.vars())),
    {
        self.evaluate_string(session, input, session.variables.len())
    }

    fn values_are_equal(&self, session: &Session, left: &Value, right: &Value) -> (r: bool)
        ensures
            r == values_equal(session.vars(), left.view(), right.view()),
    {
        match (left, right) {
            (Value::Int(l), Value::Int(r)) => *l == *r,
            (Value::Bool(l), Value::Bool(r)) => *l == *r,
            (Value::String(l), Value::String(r)) => {
                self.render_text(session, l) == self.render_text(session, r)
            },
            _ => false,
        }
    }

    fn evaluate_expression(&self, session: &Session, input: &Expression) -> (r: Value)
        ensures
            r.view() == eval(session.vars(), input.view()),
        decreases input,
    {
        match input {
            Expression::Value(v) => v.duplicate(),
            Expression::Name(name) => {
                let p = session.var_position(name);
                if p < session.variables.len() {
                    session.variables[p].1.duplicate()
                } else {
                    Value::Bool(false)
                }
            },
            Expression::Equals { left, right } => {
                let left_val = self.evaluate_expression(session, left);
                let right_val = self.evaluate_expression(session, right);
                Value::Bool(self.values_are_equal(session, &left_val, &right_val))
            },
            Expression::NotEquals { left, right } => {
                let left_val = self.evaluate_expression(session, left);
                let right_val = self.evaluate_expression(session, right);
                Value::Bool(!self.values_are_equal(session, &left_val, &right_val))
            },
            Expression::GreaterThan { left, right } => {
                let left_val = self.evaluate_expression(session, left);
                let right_val = self.evaluate_expression(session, right);
                match (left_val, right_val) {
                    (Value::Int(l), Value::Int(r)) => Value::Bool(l > r),
                    _ => Value::Bool(false),
                }
            },
            Expression::LessThan { left, right } => {
                let left_val = self.evaluate_expression(session, left);
                let right_val = self.evaluate_expression(session, right);
                match (left_val, right_val) {
                    (Value::Int(l), Value::Int(r)) => Value::Bool(l < r),
                    _ => Value::Bool(false),
                }
            },
        }
    }

    /// The position of the session's node among the nodes, or their count if absent.
    fn get_current_node(&self, session: &Session) -> (r: usize)
        ensures
            r <= self.all_nodes@.len(),
            r < self.all_nodes@.len() ==> lookup(self.nodes(), session.current()) == Some(
                self.all_nodes@[r as int].1.view(),
            ),
            r == self.all_nodes@.len() ==> lookup(self.nodes(), session.current()) is None,
    {
        self.node_position(&session.current_node_id)
    }

    /// The targets of every authored choice of the session's node, in order.
    pub fn get_valid_options_ids(&self, session: &Session) -> (r: Vec<String>)
        ensures
            names_view(r@) == (match lookup(self.nodes(), session.current()) {
                Some(node) => targets(node.choices),
                None => Seq::<Seq<char>>::empty(),
            }),
    {
        let mut ids: Vec<String> = Vec::new();
        let p = self.get_current_node(session);
        if p < self.all_nodes.len() {
            let node = &self.all_nodes[p].1;
            let mut j: usize = 0;
            while j < node.choices.len()
                invariant
                    j <= node.choices@.len(),
                    ids@.len() == j,
                    forall|k: int|
                        0 <= k < j ==> #[trigger] ids@[k]@ == node.choices@[k].next_node_id@,
                decreases node.choices@.len() - j,
            {
                ids.push(node.choices[j].next_node_id.clone());
                j = j + 1;
            }
            assert(names_view(ids@) =~= targets(node.view().choices));
        } else {
            assert(names_view(ids@) =~= Seq::<Seq<char>>::empty());
        }
        ids
    }

    fn is_shown(&self, session: &Session, choice: &Choice) -> (r: bool)
        ensures
            r == shown(session.vars(), choice.view()),
    {
        match &choice.requirement {
            Some(req) => self.evaluate_expression(session, req).is_truthy(),
            None => true,
        }
    }

    /// The session's node as the player sees it: its rendered text, the choices whose
    /// requirement holds, and whether the node has no authored choices at all.
    pub fn get_current_node_view(&self, session: &Session) -> (r: CurrentNodeView)
        ensures
            r.view() == (match lookup(self.nodes(), session.current()) {
                Some(node) => node_view(session.vars(), node),
                None => missing_node_view(),
            }),
    {
        let p = self.get_current_node(session);
        if p == self.all_nodes.len() {
            let r = CurrentNodeView { display_text: String::new(), choices: Vec::new(), game_over: true };
            assert(r.view().choices =~= Seq::<ChoiceViewV>::empty());
            assert(r.view().display_text =~= Seq::<char>::empty());
            return r;
        }
        let current_node = &self.all_nodes[p].1;
        let ghost nv = current_node.view();
        let ghost vars = session.vars();
        let display_text = self.render_text(session, &current_node.display_text);
        let mut choices: Vec<ChoiceView> = Vec::new();
        let mut j: usize = 0;
        while j < current_node.choices.len()
            invariant
                j <= current_node.choices@.len(),
                nv == current_node.view(),
                vars == session.vars(),
                choice_views(choices@) == visible_choices(vars, nv.choices, j as int),
            decreases current_node.choices@.len() - j,
        {
            let choice = &current_node.choices[j];
            assert(nv.choices[j as int] == choice.view());
            if self.is_shown(session, choice) {
                let cv = ChoiceView {
                    id: choice.next_node_id.clone(),
                    display_text: self.render_text(session, &choice.text),
                };
                let ghost before = choices@;
                choices.push(cv);
                assert(choice_views(choices@) =~= choice_views(before).push(cv.view()));
            }
            j = j + 1;
        }
        let game_over = current_node.choices.len() == 0;
        CurrentNodeView { display_text, choices, game_over }
    }

    fn do_command(&self, session: &mut Session, command: &Command)
        ensures
            final(session).vars() == apply_command(old(session).vars(), command.view()),
            final(session).current() == old(session).current(),
            final(session).created() == old(session).created(),
            unique_keys(old(session).vars()) ==> unique_keys(final(session).vars()),
    {
        match command {
            Command::Assign { name, value } => {
                let p = session.var_position(name);
                if p < session.variables.len() {
                    let ghost before = session.variables@;
                    proof {
                        if unique_keys(session.vars()) {
                            lemma_insert_unique(session.vars(), name@, value.view());
                        }
                    }
                    session.variables.set(p, (name.clone(), value.duplicate()));
                    assert(session.vars() =~= insert(bindings_view(before), name@, value.view()));
                }
            },
        }
    }

    /// Moves the session along the authored choice of the current node that targets
    /// `next_node_id` (the first such), running its command; requirements are not
    /// re-checked. Any other id is rejected and the session is left as it was.
    pub fn choose_option(&self, session: &mut Session, next_node_id: String) -> (r: ChoiceResult)
        ensures
            ({
                let node = lookup(self.nodes(), old(session).current());
                let valid = node is Some && targets(node->0.choices).contains(next_node_id@);
                &&& (!valid ==> r is InvalidOption && *final(session) == *old(session))
                &&& final(session).created() == old(session).created()
                &&& (unique_keys(old(session).vars()) ==> unique_keys(final(session).vars()))
                &&& match r {
                    ChoiceResult::Success => valid && final(session).current() == next_node_id@
                        && final(session).vars() == ({
                        let choice = node->0.choices[key_pos(
                            targets(node->0.choices),
                            next_node_id@,
                            0,
                        )];
                        match choice.command {
                            Some(c) => apply_command(old(session).vars(), c),
                            None => old(session).vars(),
                        }
                    }),
                    ChoiceResult::InvalidOption { current_node_id, chosen_option } => !valid
                        && current_node_id@ == old(session).current() && chosen_option@
                        == next_node_id@ && *final(session) == *old(session),
                }
            }),
    {
        let p = self.get_current_node(session);
        let mut k: usize = 0;
        let mut found = false;
        if p < self.all_nodes.len() {
            let node = &self.all_nodes[p].1;
            let ghost ts = targets(node.view().choices);
            proof {
                lemma_key_pos(ts, next_node_id@, 0);
            }
            while k < node.choices.len() && !found
                invariant
                    k <= node.choices@.len(),
                    ts == targets(node.view().choices),
                    ts.len() == node.choices@.len(),
                    found ==> k < node.choices@.len() && key_pos(ts, next_node_id@, 0) == k,
                    !found ==> key_pos(ts, next_node_id@, 0) == key_pos(
                        ts,
                        next_node_id@,
                        k as int,
                    ),
                decreases node.choices@.len() - k + (if found {
                    0int
                } else {
                    1int
                }),
            {
                assert(ts[k as int] == node.choices@[k as int].next_node_id@);
                if node.choices[k].next_node_id == next_node_id {
                    found = true;
                } else {
                    k = k + 1;
                }
            }
            if found {
                let choice = node.choices[k].duplicate();
                if let Some(command) = &choice.command {
                    self.do_command(session, command);
                }
                session.current_node_id = next_node_id;
                return ChoiceResult::Success;
            }
        }
        ChoiceResult::InvalidOption {
            current_node_id: session.current_node_id.clone(),
            chosen_option: next_node_id,
        }
    }
}

} // verus!

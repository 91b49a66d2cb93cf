use vstd::prelude::*;

verus! {

/// One piece of a text template: literal text, or a `{name}` placeholder.
#[derive(Debug)]
pub enum FormatStringPart {
    Literal(String),
    Name(String),
}

/// A text template: literal runs and variable placeholders, in order.
#[derive(Debug)]
pub struct FormatString(pub Vec<FormatStringPart>);

/// A script value.
#[derive(Debug)]
pub enum Value {
    Bool(bool),
    Int(i32),
    String(FormatString),
}

/// A requirement expression: one primary, or one comparison of two primaries.
#[derive(Debug)]
pub enum Expression {
    Value(Value),
    Name(String),
    Equals { left: Box<Expression>, right: Box<Expression> },
    NotEquals { left: Box<Expression>, right: Box<Expression> },
    GreaterThan { left: Box<Expression>, right: Box<Expression> },
    LessThan { left: Box<Expression>, right: Box<Expression> },
}

/// A state-changing instruction carried by a choice.
#[derive(Debug)]
pub enum Command {
    Assign { name: String, value: Value },
}

/// An edge of the story graph.
#[derive(Debug)]
pub struct Choice {
    pub requirement: Option<Expression>,
    pub text: FormatString,
    pub next_node_id: String,
    pub command: Option<Command>,
}

/// A unit of narrative: display text and its outgoing choices.
#[derive(Debug)]
pub struct Node {
    pub display_text: FormatString,
    pub choices: Vec<Choice>,
}

/// One top-level declaration of a script.
#[derive(Debug)]
pub enum ProgramPart {
    NodeDefinition { id: String, node: Node },
    VariableDefinition { name: String, value: Value },
}

// ---------------------------------------------------------------------------
// Mathematical models
// ---------------------------------------------------------------------------

pub enum PartV {
    Lit(Seq<char>),
    Name(Seq<char>),
}

pub enum ValueV {
    Bool(bool),
    Int(i32),
    Str(Seq<PartV>),
}

pub enum ExprV {
    Val(ValueV),
    Name(Seq<char>),
    Eq(Box<ExprV>, Box<ExprV>),
    Ne(Box<ExprV>, Box<ExprV>),
    Gt(Box<ExprV>, Box<ExprV>),
    Lt(Box<ExprV>, Box<ExprV>),
}

pub enum CommandV {
    Assign { name: Seq<char>, value: ValueV },
}

pub struct ChoiceV {
    pub requirement: Option<ExprV>,
    pub text: Seq<PartV>,
    pub target: Seq<char>,
    pub command: Option<CommandV>,
}

pub struct NodeV {
    pub text: Seq<PartV>,
    pub choices: Seq<ChoiceV>,
}

pub enum PartDeclV {
    Node { id: Seq<char>, node: NodeV },
    Var { name: Seq<char>, value: ValueV },
}

impl FormatStringPart {
    pub open spec fn view(&self) -> PartV {
        match self {
            FormatStringPart::Literal(s) => PartV::Lit(s@),
            FormatStringPart::Name(n) => PartV::Name(n@),
        }
    }

    pub fn duplicate(&self) -> (r: Self)
        ensures
            r.view() == self.view(),
    {
        match self {
            FormatStringPart::Literal(s) => FormatStringPart::Literal(s.clone()),
            FormatStringPart::Name(n) => FormatStringPart::Name(n.clone()),
        }
    }
}

pub open spec fn parts_view(parts: Seq<FormatStringPart>) -> Seq<PartV> {
    parts.map_values(|p: FormatStringPart| p.view())
}

impl FormatString {
    pub open spec fn view(&self) -> Seq<PartV> {
        parts_view(self.0@)
    }

    pub fn duplicate(&self) -> (r: Self)
        ensures
            r.view() == self.view(),
    {
        let mut out: Vec<FormatStringPart> = Vec::new();
        let mut i: usize = 0;
        while i < self.0.len()
            invariant
                i <= self.0@.len(),
                out@.len() == i,
                forall|j: int| 0 <= j < i ==> #[trigger] out@[j].view() == self.0@[j].view(),
            decreases self.0@.len() - i,
        {
            out.push(self.0[i].duplicate());
            i = i + 1;
        }
        assert(parts_view(out@) =~= parts_view(self.0@));
        FormatString(out)
    }
}

impl Value {
    pub open spec fn view(&self) -> ValueV {
        match self {
            Value::Bool(b) => ValueV::Bool(*b),
            Value::Int(i) => ValueV::Int(*i),
            Value::String(s) => ValueV::Str(s.view()),
        }
    }

    pub fn duplicate(&self) -> (r: Self)
        ensures
            r.view() == self.view(),
    {
        match self {
            Value::Bool(b) => Value::Bool(*b),
            Value::Int(i) => Value::Int(*i),
            Value::String(s) => Value::String(s.duplicate()),
        }
    }

    /// Whether the value counts as true where a requirement is tested.
    pub fn is_truthy(&self) -> (r: bool)
        ensures
            r == truthy(self.view()),
    {
        match self {
            Value::Bool(b) => *b,
            Value::Int(i) => *i != 0,
            Value::String(s) => s.0.len() != 0,
        }
    }
}

/// Truthiness of a value: a string is true when its template has any part;
/// nothing is rendered for the test.
pub open spec fn truthy(v: ValueV) -> bool {
    match v {
        ValueV::Bool(b) => b,
        ValueV::Int(i) => i != 0,
        ValueV::Str(p) => p.len() > 0,
    }
}

impl Expression {
    pub open spec fn view(&self) -> ExprV
        decreases self,
    {
        match self {
            Expression::Value(v) => ExprV::Val(v.view()),
            Expression::Name(n) => ExprV::Name(n@),
            Expression::Equals { left, right } => ExprV::Eq(
                Box::new(left.view()),
                Box::new(right.view()),
            ),
            Expression::NotEquals { left, right } => ExprV::Ne(
                Box::new(left.view()),
                Box::new(right.view()),
            ),
            Expression::GreaterThan { left, right } => ExprV::Gt(
                Box::new(left.view()),
                Box::new(right.view()),
            ),
            Expression::LessThan { left, right } => ExprV::Lt(
                Box::new(left.view()),
                Box::new(right.view()),
            ),
        }
    }

    pub fn duplicate(&self) -> (r: Self)
        ensures
            r.view() == self.view(),
        decreases self,
    {
        match self {
            Expression::Value(v) => Expression::Value(v.duplicate()),
            Expression::Name(n) => Expression::Name(n.clone()),
            Expression::Equals { left, right } => Expression::Equals {
                left: Box::new(left.duplicate()),
                right: Box::new(right.duplicate()),
            },
            Expression::NotEquals { left, right } => Expression::NotEquals {
                left: Box::new(left.duplicate()),
                right: Box::new(right.duplicate()),
            },
            Expression::GreaterThan { left, right } => Expression::GreaterThan {
                left: Box::new(left.duplicate()),
                right: Box::new(right.duplicate()),
            },
            Expression::LessThan { left, right } => Expression::LessThan {
                left: Box::new(left.duplicate()),
                right: Box::new(right.duplicate()),
            },
        }
    }
}

impl Command {
    pub open spec fn view(&self) -> CommandV {
        match self {
            Command::Assign { name, value } => CommandV::Assign { name: name@, value: value.view() },
        }
    }

    pub fn duplicate(&self) -> (r: Self)
        ensures
            r.view() == self.view(),
    {
        match self {
            Command::Assign { name, value } => Command::Assign {
                name: name.clone(),
                value: value.duplicate(),
            },
        }
    }
}

pub open spec fn opt_expr_view(e: Option<Expression>) -> Option<ExprV> {
    match e {
        Some(x) => Some(x.view()),
        None => None,
    }
}

pub open spec fn opt_command_view(c: Option<Command>) -> Option<CommandV> {
    match c {
        Some(x) => Some(x.view()),
        None => None,
    }
}

impl Choice {
    pub open spec fn view(&self) -> ChoiceV {
        ChoiceV {
            requirement: opt_expr_view(self.requirement),
            text: self.text.view(),
            target: self.next_node_id@,
            command: opt_command_view(self.command),
        }
    }

    pub fn duplicate(&self) -> (r: Self)
        ensures
            r.view() == self.view(),
    {
        let requirement = match &self.requirement {
            Some(e) => Some(e.duplicate()),
            None => None,
        };
        let command = match &self.command {
            Some(c) => Some(c.duplicate()),
            None => None,
        };
        Choice {
            requirement,
            text: self.text.duplicate(),
            next_node_id: self.next_node_id.clone(),
            command,
        }
    }
}

pub open spec fn choices_view(cs: Seq<Choice>) -> Seq<ChoiceV> {
    cs.map_values(|c: Choice| c.view())
}

impl Node {
    pub open spec fn view(&self) -> NodeV {
        NodeV { text: self.display_text.view(), choices: choices_view(self.choices@) }
    }

    pub fn duplicate(&self) -> (r: Self)
        ensures
            r.view() == self.view(),
    {
        let mut choices: Vec<Choice> = Vec::new();
        let mut i: usize = 0;
        while i < self.choices.len()
            invariant
                i <= self.choices@.len(),
                choices@.len() == i,
                forall|j: int| 0 <= j < i ==> #[trigger] choices@[j].view() == self.choices@[j].view(),
            decreases self.choices@.len() - i,
        {
            choices.push(self.choices[i].duplicate());
            i = i + 1;
        }
        assert(choices_view(choices@) =~= choices_view(self.choices@));
        Node { display_text: self.display_text.duplicate(), choices }
    }
}

impl ProgramPart {
    pub open spec fn view(&self) -> PartDeclV {
        match self {
            ProgramPart::NodeDefinition { id, node } => PartDeclV::Node { id: id@, node: node.view() },
            ProgramPart::VariableDefinition { name, value } => PartDeclV::Var {
                name: name@,
                value: value.view(),
            },
        }
    }
}

pub open spec fn decls_view(ps: Seq<ProgramPart>) -> Seq<PartDeclV> {
    ps.map_values(|p: ProgramPart| p.view())
}

} // verus!

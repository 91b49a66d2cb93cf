use story_engine::engine::{
    expired_after, ChoiceResult, Engine, ParseError, DEFAULT_SESSION_LIFETIME_SECS,
};
use story_engine::model::{Command, FormatString, FormatStringPart, ProgramPart, Value};
use story_engine::parser::parse_program;

fn build(src: &str) -> Result<Engine, Vec<ParseError>> {
    assert!(parse_program(src).is_some(), "script should parse: {src}");
    Engine::from_program(src)
}

fn engine(src: &str) -> Engine {
    match build(src) {
        Ok(e) => e,
        Err(errs) => panic!("unexpected errors: {errs:?}"),
    }
}

fn errors(src: &str) -> Vec<ParseError> {
    match build(src) {
        Ok(_) => panic!("script should not build"),
        Err(errs) => errs,
    }
}

fn literal(s: &str) -> FormatString {
    FormatString(vec![FormatStringPart::Literal(s.to_string())])
}

const SCENARIO_A: &str = "SET gold 0\n\
=START \"You have {gold} gold.\"\n\
\"Buy\" -> SHOP [THEN gold=10]\n\
=SHOP \"You bought something.\"\n";

#[test]
fn scenario_a_render_and_advance() {
    let e = engine(SCENARIO_A);
    let mut s = e.new_session();
    let view = e.get_current_node_view(&s);
    assert_eq!(view.display_text, "You have 0 gold.");
    assert_eq!(view.choices.len(), 1);
    assert_eq!(view.choices[0].id, "SHOP");
    assert_eq!(view.choices[0].display_text, "Buy");
    assert!(!view.game_over);

    let r = e.choose_option(&mut s, "SHOP".to_string());
    assert!(matches!(r, ChoiceResult::Success));
    assert!(matches!(s.variable(&"gold".to_string()), Some(Value::Int(10))));
    assert_eq!(s.current_node_id(), "SHOP");

    let view = e.get_current_node_view(&s);
    assert_eq!(view.display_text, "You bought something.");
    assert_eq!(view.choices.len(), 0);
    assert!(view.game_over);
}

#[test]
fn scenario_b_hidden_choice_is_not_game_over() {
    let e = engine("SET flag false\n=START \"Hello\"\n[IF flag = true] \"Hi\" -> A\n=A \"End\"\n");
    let s = e.new_session();
    let view = e.get_current_node_view(&s);
    assert_eq!(view.choices.len(), 0);
    assert!(!view.game_over);
    assert_eq!(e.get_valid_options_ids(&s), vec!["A".to_string()]);
}

#[test]
fn hidden_choice_can_still_be_chosen() {
    let e = engine("SET flag false\n=START \"Hello\"\n[IF flag = true] \"Hi\" -> A\n=A \"End\"\n");
    let mut s = e.new_session();
    assert!(matches!(e.choose_option(&mut s, "A".to_string()), ChoiceResult::Success));
    assert_eq!(s.current_node_id(), "A");
}

#[test]
fn invalid_option_leaves_session_unchanged() {
    let e = engine(SCENARIO_A);
    let mut s = e.new_session();
    match e.choose_option(&mut s, "NOWHERE".to_string()) {
        ChoiceResult::InvalidOption { current_node_id, chosen_option } => {
            assert_eq!(current_node_id, "START");
            assert_eq!(chosen_option, "NOWHERE");
        }
        ChoiceResult::Success => panic!("must be rejected"),
    }
    assert_eq!(s.current_node_id(), "START");
    assert!(matches!(s.variable(&"gold".to_string()), Some(Value::Int(0))));
}

#[test]
fn missing_start_node() {
    let errs = errors("=A \"a\"\n");
    assert_eq!(errs.len(), 1);
    assert!(matches!(errs[0], ParseError::MissingStartNode));
}

#[test]
fn all_defects_are_collected() {
    let errs = errors("=START \"{nope}\"\n\"go\" -> GONE\n\"x\" -> START [THEN missing=1]\n");
    assert_eq!(errs.len(), 4);
    assert!(matches!(&errs[0], ParseError::BadReferenceInString { bad_name, .. } if bad_name == "nope"));
    assert!(matches!(&errs[1], ParseError::BadReferenceInOption { bad_id, .. } if bad_id == "GONE"));
    assert!(matches!(&errs[2], ParseError::BadReferenceInCommand { bad_name, .. } if bad_name == "missing"));
    assert!(matches!(&errs[3], ParseError::InvalidCommand { .. }));
}

#[test]
fn exactly_three_bad_references() {
    let errs = errors("=START \"{a} {b}\"\n\"go\" -> NOWHERE\n");
    assert_eq!(errs.len(), 3);
    for e in &errs {
        match e {
            ParseError::BadReferenceInString { parent_node_id, .. }
            | ParseError::BadReferenceInOption { parent_node_id, .. } => {
                assert_eq!(parent_node_id, "START")
            }
            _ => panic!("unexpected record"),
        }
    }
}

#[test]
fn bad_target_is_reported() {
    let errs = errors("=START \"s\"\n\"go\" -> X\n");
    assert_eq!(errs.len(), 1);
    match &errs[0] {
        ParseError::BadReferenceInOption { parent_node_id, bad_id } => {
            assert_eq!(parent_node_id, "START");
            assert_eq!(bad_id, "X");
        }
        _ => panic!("expected a bad option reference"),
    }
}

#[test]
fn ordering_against_string_is_invalid() {
    let errs = errors("SET a 1\n=START \"s\"\n[IF a > \"x\"] \"go\" -> START\n");
    assert_eq!(errs.len(), 1);
    assert!(matches!(errs[0], ParseError::InvalidExpression { .. }));
}

#[test]
fn ordering_against_bool_variable_is_invalid() {
    let errs = errors("SET a true\n=START \"s\"\n[IF a < 3] \"go\" -> START\n");
    assert_eq!(errs.len(), 1);
    assert!(matches!(errs[0], ParseError::InvalidExpression { .. }));
}

#[test]
fn ordering_of_ints_is_valid_and_evaluated() {
    let e = engine("SET n 5\n=START \"s\"\n[IF n > 3] \"big\" -> START\n[IF n < 3] \"small\" -> START\n");
    let s = e.new_session();
    let view = e.get_current_node_view(&s);
    assert_eq!(view.choices.len(), 1);
    assert_eq!(view.choices[0].display_text, "big");
}

#[test]
fn unknown_name_in_expression() {
    let errs = errors("=START \"s\"\n[IF ghost = 1] \"go\" -> START\n");
    assert_eq!(errs.len(), 1);
    assert!(matches!(&errs[0], ParseError::BadReferenceInExpression { bad_name, .. } if bad_name == "ghost"));
}

#[test]
fn unknown_name_in_equality_is_one_record() {
    let errs = errors("=START \"s\" [IF y = 1] \"Go\" -> START");
    assert_eq!(errs.len(), 1);
    match &errs[0] {
        ParseError::BadReferenceInExpression { parent_node_id, bad_name } => {
            assert_eq!(parent_node_id, "START");
            assert_eq!(bad_name, "y");
        }
        _ => panic!("expected a bad expression reference"),
    }
}

#[test]
fn unknown_name_in_string_operand() {
    let errs = errors("=START \"s\"\n[IF \"{zz}\" = \"a\"] \"go\" -> START\n");
    assert_eq!(errs.len(), 1);
    assert!(matches!(&errs[0], ParseError::BadReferenceInExpression { bad_name, .. } if bad_name == "zz"));
}

#[test]
fn assignment_of_another_kind_is_invalid() {
    let errs = errors("SET a 1 =START \"s\" \"Go\" -> START [THEN a = true]");
    assert_eq!(errs.len(), 1);
    match &errs[0] {
        ParseError::InvalidCommand { parent_node_id, command: Command::Assign { name, value } } => {
            assert_eq!(parent_node_id, "START");
            assert_eq!(name, "a");
            assert!(matches!(value, Value::Bool(true)));
        }
        _ => panic!("expected an invalid command"),
    }
}

#[test]
fn assignment_of_same_kind_is_valid() {
    let e = engine("SET a 1\nSET s \"x\"\n=START \"{a}{s}\"\n\"Go\" -> START [THEN a = 7]\n\"Str\" -> START [THEN s = \"y{a}\"]\n");
    let s = e.new_session();
    assert_eq!(e.get_current_node_view(&s).display_text, "1x");
}

#[test]
fn truthiness_of_values() {
    assert!(!Value::Int(0).is_truthy());
    assert!(!Value::Bool(false).is_truthy());
    assert!(!Value::String(FormatString(vec![])).is_truthy());
    assert!(Value::Int(5).is_truthy());
    assert!(Value::Bool(true).is_truthy());
    assert!(Value::String(literal("x")).is_truthy());
}

#[test]
fn falsy_requirements_hide_choices() {
    let e = engine(
        "SET z 0\nSET f false\nSET e \"\"\nSET t 7\n=START \"s\"\n\
         [IF z] \"zero\" -> START\n[IF f] \"false\" -> START\n[IF e] \"empty\" -> START\n\
         [IF t] \"seven\" -> START\n[IF true] \"yes\" -> START\n\"plain\" -> START\n",
    );
    let s = e.new_session();
    let view = e.get_current_node_view(&s);
    let texts: Vec<String> = view.choices.iter().map(|c| c.display_text.clone()).collect();
    assert_eq!(texts, vec!["seven", "yes", "plain"]);
}

#[test]
fn strings_compare_by_rendered_text() {
    let e = engine(
        "SET v \"b\"\n=START \"s\"\n[IF \"ab\" = \"a{v}\"] \"same\" -> START\n\
         [IF \"ab\" != \"a{v}\"] \"different\" -> START\n",
    );
    let s = e.new_session();
    let view = e.get_current_node_view(&s);
    assert_eq!(view.choices.len(), 1);
    assert_eq!(view.choices[0].display_text, "same");
}

#[test]
fn cross_kind_values_are_unequal() {
    let e = engine("SET v 1\n=START \"s\"\n[IF v = true] \"eq\" -> START\n[IF v != \"1\"] \"ne\" -> START\n");
    let s = e.new_session();
    let view = e.get_current_node_view(&s);
    assert_eq!(view.choices.len(), 1);
    assert_eq!(view.choices[0].display_text, "ne");
}

#[test]
fn nested_string_variables_render() {
    let e = engine("SET name \"Ann\"\nSET greet \"Hi {name}!\"\nSET n -5\nSET b true\n=START \"{greet} {n} {b}\"\n");
    let s = e.new_session();
    assert_eq!(e.get_current_node_view(&s).display_text, "Hi Ann! -5 true");
}

#[test]
fn cyclic_string_variables_terminate() {
    let e = engine("SET a \"<{b}>\"\nSET b \"[{a}]\"\n=START \"{a}\"\n");
    let s = e.new_session();
    assert_eq!(e.get_current_node_view(&s).display_text, "<[]>");
}

#[test]
fn later_declarations_win() {
    let e = engine("SET x 1\nSET x 2\n=START \"old\"\n=START \"{x}\"\n");
    let s = e.new_session();
    assert_eq!(e.get_current_node_view(&s).display_text, "2");
}

#[test]
fn command_sets_string_value() {
    let e = engine("SET who \"nobody\"\n=START \"{who}\"\n\"go\" -> START [THEN who = \"me\"]\n");
    let mut s = e.new_session();
    assert!(matches!(e.choose_option(&mut s, "START".to_string()), ChoiceResult::Success));
    assert_eq!(e.get_current_node_view(&s).display_text, "me");
}

#[test]
fn first_matching_choice_is_taken() {
    let e = engine("SET x 0\n=START \"{x}\"\n\"one\" -> START [THEN x=1]\n\"two\" -> START [THEN x=2]\n");
    let mut s = e.new_session();
    assert!(matches!(e.choose_option(&mut s, "START".to_string()), ChoiceResult::Success));
    assert_eq!(e.get_current_node_view(&s).display_text, "1");
}

#[test]
fn parse_rejects_bad_syntax() {
    assert!(parse_program("=START \"unterminated").is_none());
    assert!(parse_program("=START \"ok\" junk").is_none());
    assert!(parse_program("SET x").is_none());
    assert!(parse_program("SET x 2147483648").is_none());
}

#[test]
fn parse_accepts_empty_and_whitespace() {
    assert_eq!(parse_program("").map(|p| p.len()), Some(0));
    assert_eq!(parse_program("  \n\t ").map(|p| p.len()), Some(0));
}

#[test]
fn parse_integer_limits() {
    let parts = parse_program("SET a -2147483648\nSET b +2147483647").expect("parses");
    assert_eq!(parts.len(), 2);
    assert!(matches!(&parts[0], ProgramPart::VariableDefinition { name, value: Value::Int(-2147483648) } if name == "a"));
    assert!(matches!(&parts[1], ProgramPart::VariableDefinition { value: Value::Int(2147483647), .. }));
}

#[test]
fn parse_node_structure() {
    let parts = parse_program("=START \"a{x}b\"\n[IF x != 1] \"c\" -> END [THEN x = 2]\n\"d\" -> END").expect("parses");
    assert_eq!(parts.len(), 1);
    match &parts[0] {
        ProgramPart::NodeDefinition { id, node } => {
            assert_eq!(id, "START");
            assert_eq!(node.display_text.0.len(), 3);
            assert!(matches!(&node.display_text.0[1], FormatStringPart::Name(n) if n == "x"));
            assert_eq!(node.choices.len(), 2);
            assert!(node.choices[0].requirement.is_some());
            assert!(node.choices[0].command.is_some());
            assert_eq!(node.choices[1].next_node_id, "END");
            assert!(node.choices[1].requirement.is_none());
        }
        _ => panic!("expected a node"),
    }
}

#[test]
fn add_node_replaces() {
    let mut e = Engine::new();
    let node = |t: &str| story_engine::model::Node { display_text: literal(t), choices: vec![] };
    e.add_node("START".to_string(), node("one"));
    e.add_node("START".to_string(), node("two"));
    let s = e.new_session();
    assert_eq!(e.get_current_node_view(&s).display_text, "two");
}

#[test]
fn from_parts_builds() {
    let parts = vec![ProgramPart::NodeDefinition {
        id: "START".to_string(),
        node: story_engine::model::Node { display_text: literal("hello"), choices: vec![] },
    }];
    let e = Engine::from_parts(&parts).expect("builds");
    let s = e.new_session();
    let view = e.get_current_node_view(&s);
    assert_eq!(view.display_text, "hello");
    assert!(view.game_over);
}

#[test]
fn session_expiry() {
    assert!(!expired_after(0, DEFAULT_SESSION_LIFETIME_SECS));
    assert!(!expired_after(24 * 3600 - 1, DEFAULT_SESSION_LIFETIME_SECS));
    assert!(expired_after(24 * 3600, DEFAULT_SESSION_LIFETIME_SECS));
    assert!(expired_after(30, 30));
    assert!(!expired_after(29, 30));
    let e = engine(SCENARIO_A);
    assert!(!e.new_session().is_expired(DEFAULT_SESSION_LIFETIME_SECS));
    assert!(e.new_session().is_expired(0));
}

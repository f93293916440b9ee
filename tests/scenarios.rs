use kconfig::attribute::{parse_depends_on, parse_range, Attribute, ConfigType, Range, Type};
use kconfig::entry::{parse_choice, parse_menu, parse_source, Choice, Config, Entry};
use kconfig::expression::{parse_expression, AndExpression, Atom, OrExpression, Term};
use kconfig::function::{parse_function_call, ExpressionToken, FunctionCall, Parameter};
use kconfig::kconfig::{parse_kconfig, Kconfig};
use kconfig::symbol::Symbol;
use kconfig::vars::apply_vars;
use kconfig::{Context, ErrorKind, KconfigFile, PResult, ParseError};

fn run<T>(f: fn(&[char], usize) -> PResult<T>, input: &str) -> Result<(String, T), ParseError> {
    let cs: Vec<char> = input.chars().collect();
    f(&cs, 0).map(|(e, v)| (cs[e..].iter().collect::<String>(), v))
}

fn run_in<T>(
    f: fn(&[char], usize, &Context, usize) -> PResult<T>,
    input: &str,
    ctx: &Context,
) -> Result<(String, T), ParseError> {
    let cs: Vec<char> = input.chars().collect();
    f(&cs, 0, ctx, ctx.max_source_depth).map(|(e, v)| (cs[e..].iter().collect::<String>(), v))
}

fn term(s: &str) -> Term {
    Term::Atom(Atom::Symbol(Symbol::NonConstant(s.to_string())))
}

fn context() -> Context {
    Context::new(KconfigFile::default())
}

#[test]
fn and_chain_gives_one_flat_list() {
    assert_eq!(
        run(parse_expression, "A && B && C && D"),
        Ok((
            "".to_string(),
            OrExpression::Term(AndExpression::Expression(vec![term("A"), term("B"), term("C"), term("D")]))
        ))
    );
}

#[test]
fn single_symbol_is_not_wrapped() {
    assert_eq!(
        run(parse_expression, "A"),
        Ok(("".to_string(), OrExpression::Term(AndExpression::Term(term("A")))))
    );
}

#[test]
fn and_binds_tighter_than_or() {
    assert_eq!(
        run(parse_expression, "A || B && C"),
        Ok((
            "".to_string(),
            OrExpression::Expression(vec![
                AndExpression::Term(term("A")),
                AndExpression::Expression(vec![term("B"), term("C")]),
            ])
        ))
    );
    assert_eq!(
        run(parse_expression, "A && B || C && D"),
        Ok((
            "".to_string(),
            OrExpression::Expression(vec![
                AndExpression::Expression(vec![term("A"), term("B")]),
                AndExpression::Expression(vec![term("C"), term("D")]),
            ])
        ))
    );
}

#[test]
fn expression_round_trips_through_its_text() {
    for text in ["A || B && !C", "NR_CPUS >= 4 && (X || \"y\")", "$(success,cc --version | head -n1)", "-5 || 12"] {
        let (_, first) = run(parse_expression, text).unwrap();
        let printed = first.to_string();
        let (rest, second) = run(parse_expression, &printed).unwrap();
        assert_eq!(rest, "");
        assert_eq!(first, second, "{}", printed);
    }
}

#[test]
fn warning_call_round_trips() {
    let (rest, call) = run(parse_function_call, "$(warning)").unwrap();
    assert_eq!(rest, "");
    assert_eq!(call, FunctionCall { name: "warning".to_string(), parameters: vec![] });
    assert_eq!(call.to_string(), "$(warning)");
    let (_, call) = run(parse_function_call, "$(greeting,Hello,John)").unwrap();
    assert_eq!(call.to_string(), "$(greeting, Hello, John)");
    assert_eq!(run(parse_function_call, &call.to_string()).unwrap().1, call);
}

#[test]
fn instruction_operand_is_one_literal() {
    assert_eq!(
        run(parse_function_call, "$(as-instr,%reg(ax))"),
        Ok((
            "".to_string(),
            FunctionCall {
                name: "as-instr".to_string(),
                parameters: vec![Parameter { tokens: vec![ExpressionToken::Literal("%reg(ax)".to_string())] }]
            }
        ))
    );
}

#[test]
fn parsing_twice_gives_the_same_tree() {
    let text = "menu \"Net\"\n  depends on NET\nconfig A\n\tbool \"a\"\n\tdefault y if B\n\thelp\n\t  Some help.\nendmenu\n";
    let ctx = context();
    assert_eq!(parse_kconfig(text, &ctx), parse_kconfig(text, &ctx));
    assert!(parse_kconfig(text, &ctx).is_ok());
}

#[test]
fn tab_between_depends_and_on_is_like_a_space() {
    assert_eq!(
        run(parse_depends_on, "depends\ton A && B"),
        run(parse_depends_on, "depends on A && B")
    );
    assert_eq!(
        run(parse_depends_on, "depends \t on A").unwrap().1,
        Attribute::DependsOn(OrExpression::Term(AndExpression::Term(term("A"))))
    );
}

#[test]
fn empty_choice_has_no_options_and_no_entries() {
    assert_eq!(
        run_in(parse_choice, "choice\nendchoice", &context()),
        Ok(("".to_string(), Choice { options: vec![], entries: vec![] }))
    );
}

#[test]
fn dynamic_source_path_is_a_placeholder() {
    let mut ctx = context();
    ctx.add_source("x/Kconfig".to_string(), "config X\n\tbool\n".to_string());
    assert_eq!(
        run_in(parse_source, "source \"$(VAR)/Kconfig\"", &ctx),
        Ok(("".to_string(), Kconfig { file: "$(VAR)/Kconfig".to_string(), entries: vec![] }))
    );
}

#[test]
fn source_path_with_known_variable_is_read() {
    let vars = vec![("VAR".to_string(), "x".to_string())];
    let mut ctx = Context::new(KconfigFile::new_with_vars(String::new(), String::new(), &vars));
    ctx.add_source("x/Kconfig".to_string(), "config X\n\tbool\n".to_string());
    let (_, k) = run_in(parse_source, "source \"$(VAR)/Kconfig\"", &ctx).unwrap();
    assert_eq!(k.file, "x/Kconfig");
    assert_eq!(
        k.entries,
        vec![Entry::Config(Config {
            symbol: "X".to_string(),
            attributes: vec![Attribute::Type(ConfigType { kind: Type::Bool(None), condition: None })]
        })]
    );
}

#[test]
fn missing_source_can_be_a_placeholder() {
    let mut ctx = context();
    ctx.fail_on_missing_source = false;
    assert_eq!(
        run_in(parse_source, "source \"nowhere/Kconfig\"", &ctx),
        Ok(("".to_string(), Kconfig { file: "nowhere/Kconfig".to_string(), entries: vec![] }))
    );
}

#[test]
fn illegal_menu_attribute_fails() {
    let err = run_in(parse_menu, "menu \"X\" select Y endmenu", &context()).unwrap_err();
    assert_eq!(err.kind, ErrorKind::Unterminated);
}

#[test]
fn two_bool_configs() {
    assert_eq!(
        parse_kconfig("config 64BIT\n\tbool\n\nconfig 32BIT\n\tbool\n", &context()),
        Ok(Kconfig {
            file: "".to_string(),
            entries: vec![
                Entry::Config(Config {
                    symbol: "64BIT".to_string(),
                    attributes: vec![Attribute::Type(ConfigType { kind: Type::Bool(None), condition: None })]
                }),
                Entry::Config(Config {
                    symbol: "32BIT".to_string(),
                    attributes: vec![Attribute::Type(ConfigType { kind: Type::Bool(None), condition: None })]
                }),
            ]
        })
    );
}

#[test]
fn trailing_input_is_an_error() {
    assert_eq!(parse_kconfig("config A\n\tbool\n)\n", &context()).unwrap_err().kind, ErrorKind::TrailingInput);
}

#[test]
fn unterminated_if_is_an_error() {
    assert_eq!(parse_kconfig("if A\nconfig B\n\tbool\n", &context()).unwrap_err().kind, ErrorKind::Unterminated);
}

#[test]
fn missing_source_is_an_error() {
    assert_eq!(parse_kconfig("source \"a/Kconfig\"\n", &context()).unwrap_err().kind, ErrorKind::MissingSource);
}

#[test]
fn unparsable_source_is_an_error() {
    let mut ctx = context();
    ctx.add_source("a/Kconfig".to_string(), "config\n".to_string());
    assert_eq!(parse_kconfig("source \"a/Kconfig\"\n", &ctx).unwrap_err().kind, ErrorKind::SourceFailed);
}

#[test]
fn source_cycle_is_an_error() {
    let mut ctx = context();
    ctx.add_source("a".to_string(), "source a\n".to_string());
    assert_eq!(parse_kconfig("source a\n", &ctx).unwrap_err().kind, ErrorKind::SourceTooDeep);
}

#[test]
fn mismatch_at_top_level_is_an_error() {
    assert_eq!(parse_kconfig("menu\n", &context()).unwrap_err().kind, ErrorKind::TrailingInput);
}

#[test]
fn numeric_range_bounds_are_written_in_decimal() {
    assert_eq!(
        run(parse_range, "range 007 -10"),
        Ok((
            "".to_string(),
            Range {
                lower_bound: Symbol::NonConstant("7".to_string()),
                upper_bound: Symbol::NonConstant("-10".to_string()),
                condition: None
            }
        ))
    );
}

#[test]
fn too_large_number_is_a_symbol() {
    assert_eq!(
        run(parse_expression, "99999999999999999999"),
        Ok((
            "".to_string(),
            OrExpression::Term(AndExpression::Term(term("99999999999999999999")))
        ))
    );
    assert_eq!(
        run(parse_expression, "-9223372036854775808"),
        Ok(("".to_string(), OrExpression::Term(AndExpression::Term(Term::Atom(Atom::Number(i64::MIN))))))
    );
}

#[test]
fn variables_are_substituted_in_every_place() {
    let vars = vec![("A".to_string(), "x".to_string()), ("A".to_string(), "y".to_string())];
    assert_eq!(apply_vars("$(A)/$(A)", &vars), None);
    assert_eq!(apply_vars("$(A) $(A)", &vars), Some("y y".to_string()));
}

#[test]
fn kconfig_file_paths() {
    let f = KconfigFile::new("/src/linux".to_string(), "arch/Kconfig".to_string());
    assert_eq!(f.full_path(), "/src/linux/arch/Kconfig");
    let f = KconfigFile::new("/src/linux/".to_string(), "Kconfig".to_string());
    assert_eq!(f.full_path(), "/src/linux/Kconfig");
    let f = KconfigFile::new("/src".to_string(), "/abs/Kconfig".to_string());
    assert_eq!(f.full_path(), "/abs/Kconfig");
    let f = KconfigFile::new(String::new(), "Kconfig".to_string());
    assert_eq!(f.full_path(), "Kconfig");
}

#[test]
fn kconfig_file_vars_and_contents() {
    let mut f = KconfigFile::default();
    assert!(f.vars.is_empty());
    f.set_vars(&vec![("K".to_string(), "v".to_string())]);
    assert_eq!(f.vars, vec![("K".to_string(), "v".to_string())]);
    let f = KconfigFile::new(String::new(), "b".to_string());
    let files = vec![("a".to_string(), "1".to_string()), ("b".to_string(), "2".to_string())];
    assert_eq!(f.read_to_string(&files), Some("2".to_string()));
    assert_eq!(KconfigFile::new(String::new(), "c".to_string()).read_to_string(&files), None);
}

#[test]
fn unterminated_choice_is_an_error() {
    let err = run_in(parse_choice, "choice\nconfig A\n\tbool\n", &context()).unwrap_err();
    assert_eq!(err.kind, ErrorKind::Unterminated);
    assert_eq!(parse_kconfig("choice\nconfig A\n\tbool\n", &context()).unwrap_err().kind, ErrorKind::Unterminated);
}

#[test]
fn choice_accepts_string_configs() {
    let (_, c) = run_in(parse_choice, "choice\nconfig A\n\tstring \"a\"\nendchoice", &context()).unwrap();
    assert_eq!(c.entries.len(), 1);
}

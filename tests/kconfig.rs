use kconfig::attribute::{Attribute, ConfigType, Type};
use kconfig::entry::{parse_source, Choice, Config, Entry, If};
use kconfig::expression::{AndExpression, Atom, OrExpression, Term};
use kconfig::kconfig::{parse_kconfig, Kconfig};
use kconfig::symbol::Symbol;
use kconfig::vars::apply_vars;
use kconfig::{Context, ErrorKind, KconfigFile, ParseError};

fn parse(input: &str) -> Result<Kconfig, ParseError> {
    parse_kconfig(input, &Context::new(KconfigFile::default()))
}

fn tristate(symbol: &str) -> Entry {
    Entry::Config(Config {
        symbol: symbol.to_string(),
        attributes: vec![Attribute::Type(ConfigType { kind: Type::Tristate(None), condition: None })],
    })
}

fn source_with(input: &str, ctx: &Context) -> Result<(String, Kconfig), ParseError> {
    let cs: Vec<char> = input.chars().collect();
    parse_source(&cs, 0, ctx, ctx.max_source_depth)
        .map(|(e, v)| (cs[e..].iter().collect::<String>(), v))
}

fn with_empty_file() -> Context {
    let mut ctx = Context::new(KconfigFile::default());
    ctx.add_source("empty".to_string(), String::new());
    ctx
}

#[test]
fn test_parse_kconfig() {
    let input = "\n    config SND_INTEL_NHLT\n        tristate\n        # this config should be selected only for Intel ACPI platforms.\n        # A fallback is provided so that the code compiles in all cases.";
    assert_eq!(
        parse(input),
        Ok(Kconfig { file: "".to_string(), entries: vec![tristate("SND_INTEL_NHLT")] })
    )
}

#[test]
fn test_parse_kconfig_choice() {
    let input = "\nchoice\nconfig RAPIDIO_ENUM_BASIC\n\ttristate\n\nendchoice\n";
    assert_eq!(
        parse(input),
        Ok(Kconfig {
            file: "".to_string(),
            entries: vec![Entry::Choice(Choice {
                options: vec![],
                entries: vec![tristate("RAPIDIO_ENUM_BASIC")]
            })]
        })
    )
}

#[test]
fn lib_test_test_parse_type() {
    let input = "config BLK_DEV_IDEDMA_SFF\n\tbool\n\nif PCI\n\nendif";
    assert_eq!(
        parse(input),
        Ok(Kconfig {
            file: "".to_string(),
            entries: vec![
                Entry::Config(Config {
                    symbol: "BLK_DEV_IDEDMA_SFF".to_string(),
                    attributes: vec![Attribute::Type(ConfigType { kind: Type::Bool(None), condition: None })]
                }),
                Entry::If(If {
                    condition: OrExpression::Term(AndExpression::Term(Term::Atom(Atom::Symbol(
                        Symbol::NonConstant("PCI".to_string())
                    )))),
                    entries: vec![]
                })
            ]
        })
    )
}

#[test]
fn test_parse_source() {
    assert_eq!(
        source_with(r#"source "empty""#, &with_empty_file()),
        Ok(("".to_string(), Kconfig { file: "empty".to_string(), entries: vec![] }))
    )
}

#[test]
fn test_parse_source_no_quote() {
    assert_eq!(
        source_with("source empty", &with_empty_file()),
        Ok(("".to_string(), Kconfig { file: "empty".to_string(), entries: vec![] }))
    )
}

#[test]
fn test_parse_source_fail_file_not_exist() {
    let res = source_with("source a/random/file", &with_empty_file());
    assert!(res.is_err());
    assert_eq!(res.unwrap_err().kind, ErrorKind::MissingSource);
}

#[test]
fn test_parse_source_fail_to_parse() {
    let mut ctx = Context::new(KconfigFile::default());
    ctx.add_source("Cargo.toml".to_string(), "[package]\nname = \"kconfig\"\n".to_string());
    let res = source_with("source \"Cargo.toml\"", &ctx);
    assert!(res.is_err());
}

fn assert_apply_env_vars(s: &str, extra_vars: &[(&str, &str)], expected: Option<&str>) {
    let vars: Vec<(String, String)> =
        extra_vars.iter().map(|(a, b)| (a.to_string(), b.to_string())).collect();
    assert_eq!(apply_vars(s, &vars), expected.map(String::from));
}

#[test]
fn test_apply_env_vars() {
    assert_apply_env_vars("123 $(NON_EXISTENT_VAR) 456", &[], None);
    assert_apply_env_vars("123 $(NON_EXISTENT_VAR) 456", &[("USELESS_VAR", "789")], None);
    assert_apply_env_vars("123", &[], Some("123"));
    assert_apply_env_vars("123", &[("USELESS_VAR", "789")], Some("123"));
    assert_apply_env_vars("123 $(GOOD_VAR) 456", &[("GOOD_VAR", "Bingo")], Some("123 Bingo 456"));
    assert_apply_env_vars(
        "123 $(GOOD_VAR) 456 $(GOOD_VAR)",
        &[("GOOD_VAR", "Bingo")],
        Some("123 Bingo 456 Bingo"),
    );
}

use kconfig::attribute::{
    parse_attribute, parse_attributes, parse_def_bool, parse_def_tristate, parse_default,
    parse_depends_on, parse_enable, parse_imply, parse_option, parse_optional, parse_prompt_value,
    parse_range, parse_requires, parse_select, parse_type, parse_visible, Attribute, ConfigType,
    DefBool, DefTristate, DefaultAttribute, Imply, OptionValues, Prompt, Range, Select, Type,
};
use kconfig::expression::{
    AndExpression, Atom, CompareExpression, CompareOperator, Expression, OrExpression, Term,
};
use kconfig::function::{ExpressionToken, FunctionCall, Parameter};
use kconfig::symbol::Symbol;
use kconfig::{PResult, ParseError};

fn run<T>(f: fn(&[char], usize) -> PResult<T>, input: &str) -> Result<(String, T), ParseError> {
    let cs: Vec<char> = input.chars().collect();
    f(&cs, 0).map(|(e, v)| (cs[e..].iter().collect::<String>(), v))
}

fn attributes(input: &str) -> (String, Vec<Attribute>) {
    let cs: Vec<char> = input.chars().collect();
    let (e, v) = parse_attributes(&cs, 0);
    (cs[e..].iter().collect(), v)
}

fn sym(s: &str) -> Symbol {
    Symbol::NonConstant(s.to_string())
}

fn single(t: Term) -> Expression {
    OrExpression::Term(AndExpression::Term(t))
}

fn symbol_expr(s: &str) -> Expression {
    single(Term::Atom(Atom::Symbol(sym(s))))
}

fn ok<T>(rest: &str, v: T) -> Result<(String, T), ParseError> {
    Ok((rest.to_string(), v))
}

fn as_instr() -> Expression {
    single(Term::Atom(Atom::Function(FunctionCall {
        name: "as-instr".to_string(),
        parameters: vec![Parameter {
            tokens: vec![
                ExpressionToken::Literal("vpmovm2b".to_string()),
                ExpressionToken::Space,
                ExpressionToken::Literal("%k1".to_string()),
                ExpressionToken::Function(Box::new(FunctionCall {
                    name: "comma".to_string(),
                    parameters: vec![],
                })),
                ExpressionToken::Literal("%zmm5".to_string()),
            ],
        }],
    })))
}

#[test]
fn def_bool_test_test_parse_def_bool() {
    assert_eq!(
        run(parse_def_bool, "def_bool     !PCI "),
        ok(" ", DefBool { expression: single(Term::Not(Atom::Symbol(sym("PCI")))), condition: None })
    )
}

#[test]
fn def_bool_test_test_parse_def_bool_function() {
    assert_eq!(
        run(parse_def_bool, "def_bool $(as-instr,vpmovm2b %k1$(comma)%zmm5)"),
        ok("", DefBool { expression: as_instr(), condition: None })
    )
}

#[test]
fn def_tristate_test_test_parse_def_tristate() {
    assert_eq!(
        run(parse_def_tristate, "def_tristate m"),
        ok("", DefTristate { expression: symbol_expr("m"), condition: None })
    )
}

#[test]
fn test_parse_default() {
    assert_eq!(
        run(parse_default, "default 0x1"),
        ok("", DefaultAttribute { expression: symbol_expr("0x1"), condition: None })
    )
}

#[test]
fn test_parse_default_constant_symbol_with_numbers() {
    assert_eq!(
        run(parse_default, "default 7.10.d"),
        ok("", DefaultAttribute { expression: symbol_expr("7.10.d"), condition: None })
    )
}

#[test]
fn test_parse_default_ambigus() {
    assert_eq!(
        run(
            parse_default,
            r#"default "$(shell,$(srctree)/scripts/gcc-plugin.sh "$(preferred-plugin-hostcc)" "$(HOSTCXX)" "$(CC)")" if CC_IS_GCC"#
        ),
        ok(
            "",
            DefaultAttribute {
                expression: single(Term::Atom(Atom::String(
                    r#"$(shell,$(srctree)/scripts/gcc-plugin.sh "$(preferred-plugin-hostcc)" "$(HOSTCXX)" "$(CC)")"#
                        .to_string()
                ))),
                condition: Some(symbol_expr("CC_IS_GCC"))
            }
        )
    )
}

#[test]
fn test_parse_depends_on() {
    assert_eq!(
        run(parse_depends_on, "depends on PCI"),
        ok("", Attribute::DependsOn(symbol_expr("PCI")))
    )
}

#[test]
fn test_parse_depends_on_weird_tab() {
    assert_eq!(
        run(parse_depends_on, "depends \ton LIVEPATCH"),
        ok("", Attribute::DependsOn(symbol_expr("LIVEPATCH")))
    )
}

#[test]
fn test_parse_depends_on_backslash() {
    let t = |s: &str| AndExpression::Term(Term::Atom(Atom::Symbol(sym(s))));
    assert_eq!(
        run(
            parse_depends_on,
            "depends on (ARCH_LUBBOCK || MACH_MAINSTONE || PXA_SHARPSL \\\n\t\t    || MACH_ARMCORE || ARCH_PXA_PALM)"
        ),
        ok(
            "",
            Attribute::DependsOn(single(Term::Atom(Atom::Parenthesis(Box::new(
                OrExpression::Expression(vec![
                    t("ARCH_LUBBOCK"),
                    t("MACH_MAINSTONE"),
                    t("PXA_SHARPSL"),
                    t("MACH_ARMCORE"),
                    t("ARCH_PXA_PALM"),
                ])
            )))))
        )
    )
}

#[test]
fn enable_test_test_parse_enable() {
    assert_eq!(run(parse_enable, "enable MTK_INFRACFG"), ok("", "MTK_INFRACFG".to_string()))
}

#[test]
fn test_parse_imply() {
    assert_eq!(run(parse_imply, "imply PCI"), ok("", Imply { symbol: sym("PCI"), condition: None }))
}

#[test]
fn test_parse_attribute() {
    assert_eq!(run(parse_attribute, "    transitional"), ok("", Attribute::Transitional));
    assert_eq!(
        run(parse_attribute, "    default  m"),
        ok("", Attribute::Default(DefaultAttribute { expression: symbol_expr("m"), condition: None }))
    );
    assert_eq!(
        run(parse_attribute, "depends on KVM"),
        ok("", Attribute::DependsOn(symbol_expr("KVM")))
    );
    assert_eq!(
        run(parse_attribute, "enable MTK_INFRACFG"),
        ok(
            "",
            Attribute::Select(Select { symbol: "MTK_INFRACFG".to_string(), condition: None })
        )
    );
    assert_eq!(
        run(parse_attribute, "help\n please"),
        ok("", Attribute::Help("please".to_string()))
    );
    assert_eq!(
        run(parse_attribute, "imply KVM"),
        ok("", Attribute::Imply(Imply { symbol: sym("KVM"), condition: None }))
    );
    assert_eq!(run(parse_attribute, "    modules"), ok("", Attribute::Modules));
    assert_eq!(
        run(parse_attribute, "    option      defconfig_list"),
        ok("", Attribute::Option(OptionValues::DefconfigList))
    );
    assert_eq!(
        run(parse_attribute, "prompt \"hello world\""),
        ok(
            "",
            Attribute::Prompt(Prompt { prompt: "hello world".to_string(), condition: None })
        )
    );
    assert_eq!(
        run(parse_attribute, "    range 0 512"),
        ok(
            "",
            Attribute::Range(Range { lower_bound: sym("0"), upper_bound: sym("512"), condition: None })
        )
    );
    assert_eq!(
        run(parse_attribute, "    requires   MTK_INFRACFG=y"),
        ok(
            "",
            Attribute::Requires(single(Term::Atom(Atom::Compare(CompareExpression {
                left: sym("MTK_INFRACFG"),
                operator: CompareOperator::Equal,
                right: sym("y")
            }))))
        )
    );
    assert_eq!(
        run(parse_attribute, "select KVM"),
        ok("", Attribute::Select(Select { symbol: "KVM".to_string(), condition: None }))
    );
    assert_eq!(run(parse_attribute, "    visible"), ok("", Attribute::Visible(None)));
}

#[test]
fn test_parse_attributes() {
    assert_eq!(
        attributes("\n        select KVM \n        modules\n        default 5"),
        (
            "".to_string(),
            vec![
                Attribute::Select(Select { symbol: "KVM".to_string(), condition: None }),
                Attribute::Modules,
                Attribute::Default(DefaultAttribute {
                    expression: single(Term::Atom(Atom::Number(5))),
                    condition: None
                }),
            ]
        )
    );
}

#[test]
fn test_attributes_to_string() {
    let kvm = || symbol_expr("KVM");
    assert_eq!(Attribute::Help("help please".to_string()).to_string(), "help\n  help please");
    assert_eq!(
        Attribute::Prompt(Prompt { prompt: "a prompt".to_string(), condition: None }).to_string(),
        r#"prompt "a prompt""#
    );
    assert_eq!(Attribute::Modules.to_string(), "modules");
    assert_eq!(Attribute::Optional.to_string(), "optional");
    assert_eq!(Attribute::Visible(None).to_string(), "visible");
    assert_eq!(Attribute::Visible(Some(kvm())).to_string(), "visible if KVM");
    assert_eq!(
        Attribute::Select(Select { symbol: "NET".to_string(), condition: None }).to_string(),
        "select NET"
    );
    assert_eq!(Attribute::DependsOn(kvm()).to_string(), "depends on KVM");
    assert_eq!(Attribute::Transitional.to_string(), "transitional");
    assert_eq!(
        Attribute::Range(Range { lower_bound: sym("0"), upper_bound: sym("15"), condition: None })
            .to_string(),
        "range 0 15"
    );
    assert_eq!(
        Attribute::Default(DefaultAttribute { expression: kvm(), condition: None }).to_string(),
        "default KVM"
    );
    assert_eq!(
        Attribute::Imply(Imply { symbol: sym("DEBUGGER"), condition: None }).to_string(),
        "imply DEBUGGER"
    );
    assert_eq!(Attribute::Requires(kvm()).to_string(), "requires KVM");
    assert_eq!(
        Attribute::Type(ConfigType { kind: Type::Bool(None), condition: None }).to_string(),
        "bool"
    );
    assert_eq!(Attribute::Option(OptionValues::DefconfigList).to_string(), "option defconfig_list");
}

#[test]
fn test_parse_option_defconfig_list() {
    assert_eq!(run(parse_option, "option defconfig_list"), ok("", OptionValues::DefconfigList))
}

#[test]
fn test_parse_option_modules() {
    assert_eq!(run(parse_option, "option modules"), ok("", OptionValues::Modules))
}

#[test]
fn test_parse_option_env() {
    assert_eq!(
        run(parse_option, "option env =\"SHELL\""),
        ok("", OptionValues::Env("SHELL".to_string()))
    )
}

#[test]
fn test_parse_option_allnoconfig_y() {
    assert_eq!(run(parse_option, "option  allnoconfig_y"), ok("", OptionValues::AllNoConfigY))
}

#[test]
fn option_to_string() {
    assert_eq!(OptionValues::AllNoConfigY.to_string(), "allnoconfig_y");
    assert_eq!(OptionValues::DefconfigList.to_string(), "defconfig_list");
    assert_eq!(OptionValues::Modules.to_string(), "modules");
    assert_eq!(OptionValues::Env("PWD".to_string()).to_string(), r#"env="PWD""#);
}

#[test]
fn test_parse_optional() {
    assert_eq!(run(parse_optional, "optional"), ok("", ()))
}

#[test]
fn test_parse_prompt() {
    assert_eq!(
        run(parse_prompt_value, "\"scripts/Kconfig.include\""),
        ok("", "scripts/Kconfig.include".to_string())
    )
}

#[test]
fn test_parse_prompt_1() {
    assert_eq!(
        run(parse_prompt_value, "\"Support in-kernel module decompression\""),
        ok("", "Support in-kernel module decompression".to_string())
    )
}

#[test]
fn test_parse_prompt_no_quote() {
    assert_eq!(run(parse_prompt_value, " TCC8000"), ok("", "TCC8000".to_string()))
}

#[test]
fn test_prompt_to_string() {
    assert_eq!(
        Prompt { prompt: "Support of KVM".to_string(), condition: None }.to_string(),
        r#""Support of KVM""#
    );
    assert_eq!(
        Prompt { prompt: "Support of KVM".to_string(), condition: Some(symbol_expr("KVM")) }
            .to_string(),
        r#""Support of KVM" if KVM"#
    )
}

#[test]
fn test_parse_range() {
    assert_eq!(
        run(parse_range, "range 1 5"),
        ok("", Range { lower_bound: sym("1"), upper_bound: sym("5"), condition: None })
    )
}

#[test]
fn test_parse_range_to_string() {
    assert_eq!(
        Range { lower_bound: sym("1"), upper_bound: sym("5"), condition: None }.to_string(),
        "1 5"
    );
    assert_eq!(
        Range { lower_bound: sym("1"), upper_bound: sym("5"), condition: Some(symbol_expr("NET")) }
            .to_string(),
        "1 5 if NET"
    )
}

#[test]
fn test_parse_requires() {
    assert_eq!(
        run(parse_requires, "requires MTK_INFRACFG=y"),
        ok(
            "",
            single(Term::Atom(Atom::Compare(CompareExpression {
                left: sym("MTK_INFRACFG"),
                operator: CompareOperator::Equal,
                right: sym("y")
            })))
        )
    );
    assert_eq!(run(parse_requires, " requires  KVM"), ok("", symbol_expr("KVM")))
}

#[test]
fn test_parse_select() {
    assert_eq!(
        run(parse_select, "select MTK_INFRACFG"),
        ok("", Select { symbol: "MTK_INFRACFG".to_string(), condition: None })
    )
}

#[test]
fn test_select_to_string() {
    assert_eq!(
        Select { symbol: "MTK_INFRACFG".to_string(), condition: None }.to_string(),
        "MTK_INFRACFG"
    );
    assert_eq!(
        Select {
            symbol: "MTK_INFRACFG".to_string(),
            condition: Some(single(Term::Not(Atom::Symbol(sym("KVM")))))
        }
        .to_string(),
        "MTK_INFRACFG if !KVM"
    )
}

#[test]
fn select_test_test_parse_enable() {
    assert_eq!(
        run(parse_select, "enable MTK_INFRACFG"),
        ok("", Select { symbol: "MTK_INFRACFG".to_string(), condition: None })
    )
}

#[test]
fn type_test_test_parse_type() {
    assert_eq!(
        run(parse_type, " string"),
        ok("", Attribute::Type(ConfigType { kind: Type::String(None), condition: None }))
    )
}

#[test]
fn test_parse_type_with_weird_prompt() {
    assert_eq!(
        run(parse_type, "bool TCC8000"),
        ok(
            "",
            Attribute::Type(ConfigType {
                kind: Type::Bool(Some("TCC8000".to_string())),
                condition: None
            })
        )
    )
}

#[test]
fn test_parse_type_bool() {
    assert_eq!(
        run(parse_type, "bool"),
        ok("", Attribute::Type(ConfigType { kind: Type::Bool(None), condition: None }))
    )
}

#[test]
fn test_parse_type_backslash() {
    assert_eq!(
        run(
            parse_type,
            "bool \"Enable freezer for suspend to RAM/standby\" \\\n    if ARCH_WANTS_FREEZER_CONTROL || BROKEN"
        ),
        ok(
            "",
            Attribute::Type(ConfigType {
                kind: Type::Bool(Some("Enable freezer for suspend to RAM/standby".to_string())),
                condition: Some(OrExpression::Expression(vec![
                    AndExpression::Term(Term::Atom(Atom::Symbol(sym("ARCH_WANTS_FREEZER_CONTROL")))),
                    AndExpression::Term(Term::Atom(Atom::Symbol(sym("BROKEN")))),
                ]))
            })
        )
    )
}

#[test]
fn type_test_test_parse_def_bool() {
    assert_eq!(
        run(parse_type, "def_bool     !PCI "),
        ok(
            " ",
            Attribute::Type(ConfigType {
                kind: Type::DefBool(single(Term::Not(Atom::Symbol(sym("PCI"))))),
                condition: None
            })
        )
    )
}

#[test]
fn test_parse_type_if() {
    assert_eq!(
        run(parse_type, "def_bool     !PCI  if NET"),
        ok(
            "",
            Attribute::Type(ConfigType {
                kind: Type::DefBool(single(Term::Not(Atom::Symbol(sym("PCI"))))),
                condition: Some(symbol_expr("NET"))
            })
        )
    )
}

#[test]
fn type_test_test_parse_def_bool_function() {
    assert_eq!(
        run(parse_type, "def_bool $(as-instr,vpmovm2b %k1$(comma)%zmm5)"),
        ok("", Attribute::Type(ConfigType { kind: Type::DefBool(as_instr()), condition: None }))
    )
}

#[test]
fn type_test_test_parse_def_tristate() {
    assert_eq!(
        run(parse_type, "def_tristate m"),
        ok(
            "",
            Attribute::Type(ConfigType { kind: Type::DefTristate(symbol_expr("m")), condition: None })
        )
    )
}

#[test]
fn test_type_to_string() {
    let ty = |kind: Type| kind.to_string();
    assert_eq!(ty(Type::Bool(Some("Support of rust".to_string()))), r#"bool "Support of rust""#);
    assert_eq!(ty(Type::Tristate(None)), "tristate");
    assert_eq!(ty(Type::Hex(None)), "hex");
    assert_eq!(ty(Type::Int(None)), "int");
    assert_eq!(ty(Type::String(None)), "string");
    assert_eq!(ty(Type::DefBool(symbol_expr("y"))), "def_bool y");
    assert_eq!(ty(Type::DefTristate(symbol_expr("m"))), "def_tristate m");
}

#[test]
fn test_type_with_prompt() {
    assert_eq!(
        run(parse_type, "bool \"enable it for KVM\""),
        ok(
            "",
            Attribute::Type(ConfigType {
                kind: Type::Bool(Some("enable it for KVM".to_string())),
                condition: None
            })
        )
    )
}

#[test]
fn visible_test_test_parse_type() {
    assert_eq!(run(parse_visible, " visible"), ok("", None))
}

use kconfig::attribute::{Attribute, ConfigType, DefaultAttribute, Select, Type};
use kconfig::entry::{
    parse_choice, parse_comment, parse_config, parse_function, parse_if, parse_main_menu,
    parse_menu, parse_menu_config, parse_variable_assignment, Choice, Comment, Config, Entry,
    Function, If, MainMenu, Menu, Value, VariableAssignment, VariableIdentifier,
};
use kconfig::expression::{AndExpression, Atom, Expression, OrExpression, Term};
use kconfig::function::ExpressionToken;
use kconfig::kconfig::{parse_entries, Kconfig};
use kconfig::symbol::Symbol;
use kconfig::{Context, KconfigFile, PResult, ParseError};

fn run<T>(f: fn(&[char], usize) -> PResult<T>, input: &str) -> Result<(String, T), ParseError> {
    let cs: Vec<char> = input.chars().collect();
    f(&cs, 0).map(|(e, v)| (cs[e..].iter().collect::<String>(), v))
}

fn run_in<T>(
    f: fn(&[char], usize, &Context, usize) -> PResult<T>,
    input: &str,
) -> Result<(String, T), ParseError> {
    let ctx = Context::new(KconfigFile::default());
    let cs: Vec<char> = input.chars().collect();
    f(&cs, 0, &ctx, ctx.max_source_depth).map(|(e, v)| (cs[e..].iter().collect::<String>(), v))
}

fn ok<T>(rest: &str, v: T) -> Result<(String, T), ParseError> {
    Ok((rest.to_string(), v))
}

fn sym(s: &str) -> Symbol {
    Symbol::NonConstant(s.to_string())
}

fn symbol_expr(s: &str) -> Expression {
    OrExpression::Term(AndExpression::Term(Term::Atom(Atom::Symbol(sym(s)))))
}

fn ty(kind: Type) -> Attribute {
    Attribute::Type(ConfigType { kind, condition: None })
}

fn config(symbol: &str, attributes: Vec<Attribute>) -> Config {
    Config { symbol: symbol.to_string(), attributes }
}

#[test]
fn test_parse_choice_optional() {
    assert_eq!(
        run_in(parse_choice, "choice optional endchoice"),
        ok("", Choice { options: vec![Attribute::Optional], entries: vec![] })
    )
}

#[test]
fn test_parse_choice_with_comment() {
    let input = "choice\n        bool \"MTU3 Mode Selection\"\n        default USB_MTU3_DUAL_ROLE if (USB && USB_GADGET)\n    config USB_MTU3_HOST\n        bool \"Host only mode\"\n        comment \"Gadget/Dual-role mode requires USB Gadget support to be enabled\"\nendchoice";
    assert_eq!(
        run_in(parse_choice, input),
        ok(
            "",
            Choice {
                options: vec![
                    ty(Type::Bool(Some("MTU3 Mode Selection".to_string()))),
                    Attribute::Default(DefaultAttribute {
                        expression: symbol_expr("USB_MTU3_DUAL_ROLE"),
                        condition: Some(OrExpression::Term(AndExpression::Term(Term::Atom(
                            Atom::Parenthesis(Box::new(OrExpression::Term(
                                AndExpression::Expression(vec![
                                    Term::Atom(Atom::Symbol(sym("USB"))),
                                    Term::Atom(Atom::Symbol(sym("USB_GADGET"))),
                                ])
                            )))
                        ))))
                    })
                ],
                entries: vec![
                    Entry::Config(config(
                        "USB_MTU3_HOST",
                        vec![ty(Type::Bool(Some("Host only mode".to_string())))]
                    )),
                    Entry::Comment(Comment {
                        prompt: "Gadget/Dual-role mode requires USB Gadget support to be enabled"
                            .to_string(),
                        dependencies: vec![]
                    })
                ]
            }
        )
    )
}

#[test]
fn test_parse_choice_with_symbol() {
    let input = "choice DRIVE\n\n            config WARP_DRIVE\n                bool \"Warp drive\"\n\n            config SUBLIGHT_DRIVE\n                bool \"Sublight drive\"\n            endchoice";
    assert_eq!(
        run_in(parse_choice, input),
        ok(
            "",
            Choice {
                options: vec![],
                entries: vec![
                    Entry::Config(config("WARP_DRIVE", vec![ty(Type::Bool(Some("Warp drive".to_string())))])),
                    Entry::Config(config(
                        "SUBLIGHT_DRIVE",
                        vec![ty(Type::Bool(Some("Sublight drive".to_string())))]
                    ))
                ]
            }
        )
    )
}

#[test]
fn test_parse_comment() {
    assert_eq!(
        run(parse_comment, r#"comment "Default contiguous memory area size:""#),
        ok(
            "",
            Comment { prompt: "Default contiguous memory area size:".to_string(), dependencies: vec![] }
        )
    )
}

#[test]
fn test_parse_comment_with_dependencies() {
    assert_eq!(
        run(parse_comment, "comment \"Default contiguous memory area size:\" depends on JVM"),
        ok(
            "",
            Comment {
                prompt: "Default contiguous memory area size:".to_string(),
                dependencies: vec![Attribute::DependsOn(symbol_expr("JVM"))]
            }
        )
    )
}

#[test]
fn test_parse_config() {
    assert_eq!(
        run(parse_config, "config KVM hex \"wow\""),
        ok("", config("KVM", vec![ty(Type::Hex(Some("wow".to_string())))]))
    )
}

#[test]
fn test_parse_config_no_type() {
    let number = |n| OrExpression::Term(AndExpression::Term(Term::Atom(Atom::Number(n))));
    assert_eq!(
        run(parse_config, "config ARCH_MMAP_RND_BITS_MIN\n\tdefault 18 if 64BIT\n\tdefault 8"),
        ok(
            "",
            config(
                "ARCH_MMAP_RND_BITS_MIN",
                vec![
                    Attribute::Default(DefaultAttribute {
                        expression: number(18),
                        condition: Some(symbol_expr("64BIT"))
                    }),
                    Attribute::Default(DefaultAttribute { expression: number(8), condition: None })
                ]
            )
        )
    )
}

#[test]
fn test_parse_config_tristate() {
    assert_eq!(
        run(parse_config, "config RAPIDIO_ENUM_BASIC\n    tristate"),
        ok("", config("RAPIDIO_ENUM_BASIC", vec![ty(Type::Tristate(None))]))
    )
}

#[test]
fn test_parse_config_def_bool_multiline_expression() {
    let input = "config SH_CLK_CPG_LEGACY\n\tdepends on SH_CLK_CPG\n\tdef_bool y if !CPU_SUBTYPE_SH7785 && !ARCH_SHMOBILE && \\\n\t\t      !CPU_SHX3 && !CPU_SUBTYPE_SH7757 && \\\n\t\t      !CPU_SUBTYPE_SH7734 && !CPU_SUBTYPE_SH7264 && \\\n\t\t      !CPU_SUBTYPE_SH7269";
    let not = |s: &str| Term::Not(Atom::Symbol(sym(s)));
    assert_eq!(
        run(parse_config, input),
        ok(
            "",
            config(
                "SH_CLK_CPG_LEGACY",
                vec![
                    Attribute::DependsOn(symbol_expr("SH_CLK_CPG")),
                    Attribute::Type(ConfigType {
                        kind: Type::DefBool(symbol_expr("y")),
                        condition: Some(OrExpression::Term(AndExpression::Expression(vec![
                            not("CPU_SUBTYPE_SH7785"),
                            not("ARCH_SHMOBILE"),
                            not("CPU_SHX3"),
                            not("CPU_SUBTYPE_SH7757"),
                            not("CPU_SUBTYPE_SH7734"),
                            not("CPU_SUBTYPE_SH7264"),
                            not("CPU_SUBTYPE_SH7269"),
                        ])))
                    }),
                ]
            )
        )
    )
}

#[test]
fn test_parse_function() {
    assert_eq!(
        run(parse_function, "greeting = $(1), my name is $(2).\n"),
        ok(
            "",
            Function { name: "greeting".to_string(), body: "$(1), my name is $(2).".to_string() }
        )
    )
}

#[test]
fn test_parse_if_entry() {
    assert_eq!(
        run_in(parse_if, "if NET_VENDOR_AMD source \"$(VAR)/Kconfig\" endif"),
        ok(
            "",
            If {
                condition: symbol_expr("NET_VENDOR_AMD"),
                entries: vec![Entry::Source(Kconfig {
                    file: "$(VAR)/Kconfig".to_string(),
                    entries: vec![]
                })]
            }
        )
    )
}

#[test]
fn test_parse_if_entry_with_config() {
    let input = "if VIRTUALIZATION\n    config KVM\n       bool\n       select KVM_MMIO\n   \n   endif";
    assert_eq!(
        run_in(parse_if, input),
        ok(
            "",
            If {
                condition: symbol_expr("VIRTUALIZATION"),
                entries: vec![Entry::Config(config(
                    "KVM",
                    vec![
                        ty(Type::Bool(None)),
                        Attribute::Select(Select { symbol: "KVM_MMIO".to_string(), condition: None })
                    ]
                ))]
            }
        )
    )
}

#[test]
fn test_parse_main_menu() {
    assert_eq!(
        run(parse_main_menu, "mainmenu \"BPF subsystem\""),
        ok("", MainMenu { prompt: "BPF subsystem".to_string() })
    )
}

#[test]
fn test_parse_menu() {
    assert_eq!(
        run_in(parse_menu, "menu \"BPF subsystem\" endmenu"),
        ok(
            "",
            Menu { prompt: "BPF subsystem".to_string(), visible: None, depends_on: vec![], entries: vec![] }
        )
    )
}

#[test]
fn test_parse_menu_visible() {
    assert_eq!(
        run_in(parse_menu, "menu \"BPF subsystem\" visible if EXPERT endmenu"),
        ok(
            "",
            Menu {
                prompt: "BPF subsystem".to_string(),
                visible: Some(Some(symbol_expr("EXPERT"))),
                depends_on: vec![],
                entries: vec![]
            }
        )
    )
}

#[test]
fn test_parse_menu_forbidden_attribute() {
    assert!(run_in(parse_menu, "menu \"BPF subsystem\" select EXPERT endmenu").is_err())
}

#[test]
fn test_parse_menuconfig() {
    assert_eq!(
        run(parse_menu_config, "menuconfig VIRTUALIZATION def_bool y"),
        ok(
            "",
            config(
                "VIRTUALIZATION",
                vec![Attribute::Type(ConfigType { kind: Type::DefBool(symbol_expr("y")), condition: None })]
            )
        )
    )
}

#[test]
fn test_parse_entries() {
    assert_eq!(
        run_in(parse_entries, "config KVM\n        bool\n        comment \"some configs\""),
        ok(
            "",
            vec![
                Entry::Config(config("KVM", vec![ty(Type::Bool(None))])),
                Entry::Comment(Comment { prompt: "some configs".to_string(), dependencies: vec![] }),
            ]
        )
    )
}

#[test]
fn test_double_indented_entries() {
    let input = "mainmenu \"MAIN\"\n    config A\n        bool\n        help\n            - Lorem ipsum dolor sit amet, consetetur sadipscing elitr.\n                - Lorem ipsum dolor sit amet, consetetur sadipscing elitr.\n    config B\n        bool\n";
    assert_eq!(
        run_in(parse_entries, input),
        ok(
            "",
            vec![
                Entry::MainMenu(MainMenu { prompt: "MAIN".to_string() }),
                Entry::Config(config(
                    "A",
                    vec![
                        ty(Type::Bool(None)),
                        Attribute::Help(
                            "- Lorem ipsum dolor sit amet, consetetur sadipscing elitr.\n    - Lorem ipsum dolor sit amet, consetetur sadipscing elitr.".to_string()
                        )
                    ]
                )),
                Entry::Config(config("B", vec![ty(Type::Bool(None))])),
            ]
        )
    )
}

#[test]
fn test_parse_variable() {
    assert_eq!(
        run(parse_variable_assignment, "hello = world"),
        ok(
            "",
            VariableAssignment {
                identifier: VariableIdentifier::Identifier("hello".to_string()),
                operator: "=".to_string(),
                right: Value::Literal("world".to_string())
            }
        )
    )
}

#[test]
fn test_parse_variable_variables_lefthand_side() {
    assert_eq!(
        run(parse_variable_assignment, "$(X)$(Y) := 5"),
        ok(
            "",
            VariableAssignment {
                identifier: VariableIdentifier::VariableRef(vec![
                    ExpressionToken::Variable("X".to_string()),
                    ExpressionToken::Variable("Y".to_string())
                ]),
                operator: ":=".to_string(),
                right: Value::Literal("5".to_string())
            }
        )
    )
}

#[test]
fn test_parse_variable_comma() {
    assert_eq!(
        run(parse_variable_assignment, "comma       := ,"),
        ok(
            "",
            VariableAssignment {
                identifier: VariableIdentifier::Identifier("comma".to_string()),
                operator: ":=".to_string(),
                right: Value::Literal(",".to_string())
            }
        )
    )
}

#[test]
fn test_parse_variable_space() {
    assert_eq!(
        run(parse_variable_assignment, "space       := $(empty) $(empty)"),
        ok(
            "",
            VariableAssignment {
                identifier: VariableIdentifier::Identifier("space".to_string()),
                operator: ":=".to_string(),
                right: Value::Literal("$(empty) $(empty)".to_string())
            }
        )
    )
}

#[test]
fn test_parse_variable_if_success() {
    let input = r#"if-success = $(shell,{ $(1); } >/dev/null 2>&1 && echo "$(2)" || echo "$(3)")"#;
    assert_eq!(
        run(parse_variable_assignment, input),
        ok(
            "",
            VariableAssignment {
                identifier: VariableIdentifier::Identifier("if-success".to_string()),
                operator: "=".to_string(),
                right: Value::Literal(
                    r#"$(shell,{ $(1); } >/dev/null 2>&1 && echo "$(2)" || echo "$(3)")"#.to_string()
                )
            }
        )
    )
}

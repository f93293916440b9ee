use kconfig::expression::{
    parse_expression, parse_string, AndExpression, Atom, CompareExpression, CompareOperator,
    Expression, OrExpression, Term,
};
use kconfig::function::{ExpressionToken, FunctionCall, Parameter};
use kconfig::symbol::{parse_symbol, Symbol};
use kconfig::{PResult, ParseError};

fn run<T>(f: fn(&[char], usize) -> PResult<T>, input: &str) -> Result<(String, T), ParseError> {
    let cs: Vec<char> = input.chars().collect();
    f(&cs, 0).map(|(e, v)| (cs[e..].iter().collect::<String>(), v))
}

fn sym(s: &str) -> Symbol {
    Symbol::NonConstant(s.to_string())
}

fn single(t: Term) -> Expression {
    OrExpression::Term(AndExpression::Term(t))
}

fn atom(a: Atom) -> Expression {
    single(Term::Atom(a))
}

fn compare(l: &str, op: CompareOperator, r: &str) -> Atom {
    Atom::Compare(CompareExpression { left: sym(l), operator: op, right: sym(r) })
}

#[test]
fn test_parse_expression_number() {
    assert_eq!(run(parse_expression, "-412"), Ok(("".to_string(), atom(Atom::Number(-412)))))
}

#[test]
fn test_parse_term() {
    assert_eq!(
        run(parse_expression, "!KVM"),
        Ok(("".to_string(), single(Term::Not(Atom::Symbol(sym("KVM"))))))
    )
}

#[test]
fn test_parse_depends_on_and() {
    assert_eq!(
        run(parse_expression, "ALPHA_MIATA && ALPHA_LX164"),
        Ok((
            "".to_string(),
            OrExpression::Term(AndExpression::Expression(vec![
                Term::Atom(Atom::Symbol(sym("ALPHA_MIATA"))),
                Term::Atom(Atom::Symbol(sym("ALPHA_LX164"))),
            ]))
        ))
    )
}

#[test]
fn test_parse_number_or_symbol() {
    assert_eq!(
        run(parse_expression, "64BITS"),
        Ok(("".to_string(), atom(Atom::Symbol(sym("64BITS")))))
    );
    assert_eq!(run(parse_expression, "64"), Ok(("".to_string(), atom(Atom::Number(64)))));
    assert_eq!(
        run(parse_expression, "\"64\""),
        Ok(("".to_string(), atom(Atom::String("64".to_string()))))
    );
    assert_eq!(
        run(parse_expression, "'64'"),
        Ok(("".to_string(), atom(Atom::Symbol(Symbol::Constant("64".to_string())))))
    );
}

#[test]
fn test_parse_depends_on_ambigus() {
    assert_eq!(
        run(parse_expression, "ALPHA_MIATA || ALPHA_LX164 && ALPHA_SX164"),
        Ok((
            "".to_string(),
            OrExpression::Expression(vec![
                AndExpression::Term(Term::Atom(Atom::Symbol(sym("ALPHA_MIATA")))),
                AndExpression::Expression(vec![
                    Term::Atom(Atom::Symbol(sym("ALPHA_LX164"))),
                    Term::Atom(Atom::Symbol(sym("ALPHA_SX164"))),
                ])
            ])
        ))
    )
}

#[test]
fn test_parse_string() {
    assert_eq!(
        run(
            parse_string,
            r#""$(shell,$(srctree)/scripts/gcc-plugin.sh "$(preferred-plugin-hostcc)" "$(HOSTCXX)" "$(CC)")""#
        ),
        Ok((
            "".to_string(),
            r#"$(shell,$(srctree)/scripts/gcc-plugin.sh "$(preferred-plugin-hostcc)" "$(HOSTCXX)" "$(CC)")"#
                .to_string()
        ))
    );
    assert_eq!(
        run(parse_string, r#""hello "world"" if NET"#),
        Ok((" if NET".to_string(), r#"hello "world""#.to_string()))
    );
    assert!(run(parse_string, r#""hello "world""#).is_err());
    assert!(run(parse_string, "\"hello \"world\"\n\"").is_err());
}

#[test]
fn test_parse_depends_on_optimization() {
    let paren = || {
        Term::Atom(Atom::Parenthesis(Box::new(atom(compare(
            "HELLO",
            CompareOperator::Equal,
            "world",
        )))))
    };
    assert_eq!(
        run(
            parse_expression,
            "ALPHA_MIATA || ALPHA_LX164 && ALPHA_SX164 && (HELLO = world) || ALPHA_SX164 && (HELLO = world)"
        ),
        Ok((
            "".to_string(),
            OrExpression::Expression(vec![
                AndExpression::Term(Term::Atom(Atom::Symbol(sym("ALPHA_MIATA")))),
                AndExpression::Expression(vec![
                    Term::Atom(Atom::Symbol(sym("ALPHA_LX164"))),
                    Term::Atom(Atom::Symbol(sym("ALPHA_SX164"))),
                    paren(),
                ]),
                AndExpression::Expression(vec![Term::Atom(Atom::Symbol(sym("ALPHA_SX164"))), paren()])
            ])
        ))
    )
}

#[test]
fn test_parse_expression_function() {
    let lit = |s: &str| ExpressionToken::Literal(s.to_string());
    assert_eq!(
        run(parse_expression, "$(success,$(OBJCOPY) --version | head -n1 | grep -qv llvm)"),
        Ok((
            "".to_string(),
            atom(Atom::Function(FunctionCall {
                name: "success".to_string(),
                parameters: vec![Parameter {
                    tokens: vec![
                        ExpressionToken::Variable("OBJCOPY".to_string()),
                        ExpressionToken::Space,
                        lit("--version"),
                        ExpressionToken::Space,
                        lit("|"),
                        ExpressionToken::Space,
                        lit("head"),
                        ExpressionToken::Space,
                        lit("-n1"),
                        ExpressionToken::Space,
                        lit("|"),
                        ExpressionToken::Space,
                        lit("grep"),
                        ExpressionToken::Space,
                        lit("-qv"),
                        ExpressionToken::Space,
                        lit("llvm"),
                    ]
                }]
            }))
        ))
    )
}

#[test]
fn test_parse_expression_start_like_number_but_symbol() {
    assert_eq!(
        run(parse_expression, "8xx && MTD_CFI"),
        Ok((
            "".to_string(),
            OrExpression::Term(AndExpression::Expression(vec![
                Term::Atom(Atom::Symbol(sym("8xx"))),
                Term::Atom(Atom::Symbol(sym("MTD_CFI"))),
            ]))
        ))
    )
}

#[test]
fn test_parse_expression_number_and() {
    assert_eq!(
        run(parse_expression, "8500 && MTD_CFI"),
        Ok((
            "".to_string(),
            OrExpression::Term(AndExpression::Expression(vec![
                Term::Atom(Atom::Number(8500)),
                Term::Atom(Atom::Symbol(sym("MTD_CFI"))),
            ]))
        ))
    )
}

#[test]
fn test_expression_to_string() {
    let cmp = |op| atom(compare("NUMBER_OF_PROCS", op, "5")).to_string();
    assert_eq!("NUMBER_OF_PROCS = 5", cmp(CompareOperator::Equal));
    assert_eq!("NUMBER_OF_PROCS != 5", cmp(CompareOperator::NotEqual));
    assert_eq!("NUMBER_OF_PROCS < 5", cmp(CompareOperator::LowerThan));
    assert_eq!("NUMBER_OF_PROCS <= 5", cmp(CompareOperator::LowerOrEqual));
    assert_eq!("NUMBER_OF_PROCS > 5", cmp(CompareOperator::GreaterThan));
    assert_eq!(
        r#""A string with "double quotes"""#,
        atom(Atom::String(r#"A string with "double quotes""#.to_string())).to_string()
    );
    assert_eq!("NUMBER_OF_PROCS >= 5", cmp(CompareOperator::GreaterOrEqual));
    assert_eq!(
        "KVM && NET",
        OrExpression::Term(AndExpression::Expression(vec![
            Term::Atom(Atom::Symbol(sym("KVM"))),
            Term::Atom(Atom::Symbol(sym("NET")))
        ]))
        .to_string()
    );
    assert_eq!(
        "KVM || NET",
        OrExpression::Expression(vec![
            AndExpression::Term(Term::Atom(Atom::Symbol(sym("KVM")))),
            AndExpression::Term(Term::Atom(Atom::Symbol(sym("NET"))))
        ])
        .to_string()
    );
    assert_eq!("!KVM", single(Term::Not(Atom::Symbol(sym("KVM")))).to_string());
    assert_eq!("55", atom(Atom::Number(55)).to_string());
    assert_eq!(
        "(hello)",
        atom(Atom::Parenthesis(Box::new(atom(Atom::Symbol(sym("hello")))))).to_string()
    );
    assert_eq!(
        "$(warning)",
        atom(Atom::Function(FunctionCall { name: "warning".to_string(), parameters: vec![] }))
            .to_string()
    );
}

#[test]
fn test_parse_symbol() {
    assert_eq!(
        run(parse_symbol, "\"hello\""),
        Ok(("".to_string(), Symbol::Constant("hello".to_string())))
    )
}

#[test]
fn test_symbol_to_string() {
    assert_eq!(Symbol::NonConstant("KVM".to_string()).to_string(), "KVM");
    assert_eq!(Symbol::Constant("KVM".to_string()).to_string(), r#""KVM""#);
}

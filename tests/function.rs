use kconfig::function::{parse_function_call, ExpressionToken, FunctionCall, Parameter};
use kconfig::{PResult, ParseError};

fn run<T>(f: fn(&[char], usize) -> PResult<T>, input: &str) -> Result<(String, T), ParseError> {
    let cs: Vec<char> = input.chars().collect();
    f(&cs, 0).map(|(e, v)| (cs[e..].iter().collect::<String>(), v))
}

fn lit(s: &str) -> ExpressionToken {
    ExpressionToken::Literal(s.to_string())
}

fn call(name: &str, parameters: Vec<Parameter>) -> FunctionCall {
    FunctionCall { name: name.to_string(), parameters }
}

fn param(tokens: Vec<ExpressionToken>) -> Parameter {
    Parameter { tokens }
}

#[test]
fn test_parse_function_call() {
    assert_eq!(run(parse_function_call, "$(hello)"), Ok(("".to_string(), call("hello", vec![]))))
}

#[test]
fn test_parse_function_call_with_parameters() {
    assert_eq!(
        run(parse_function_call, "$(greeting,Hello,John)"),
        Ok((
            "".to_string(),
            call("greeting", vec![param(vec![lit("Hello")]), param(vec![lit("John")])])
        ))
    )
}

#[test]
fn test_parse_function_call_expression() {
    assert_eq!(
        run(parse_function_call, "$(warning,SIMPLE = basic)"),
        Ok((
            "".to_string(),
            call(
                "warning",
                vec![param(vec![
                    lit("SIMPLE"),
                    ExpressionToken::Space,
                    lit("="),
                    ExpressionToken::Space,
                    lit("basic")
                ])]
            )
        ))
    )
}

#[test]
fn test_parse_function_call_expanded_variable() {
    assert_eq!(
        run(parse_function_call, "$(warning,SIMPLE = $(SIMPLE))"),
        Ok((
            "".to_string(),
            call(
                "warning",
                vec![param(vec![
                    lit("SIMPLE"),
                    ExpressionToken::Space,
                    lit("="),
                    ExpressionToken::Space,
                    ExpressionToken::Variable("SIMPLE".to_string())
                ])]
            )
        ))
    )
}

#[test]
fn test_parse_function_call_percent_symbol() {
    assert_eq!(
        run(parse_function_call, "$(hey (%rbx))"),
        Ok(("".to_string(), call("hey", vec![param(vec![lit("(%rbx)")])])))
    )
}

#[test]
fn test_parse_function_call_recursive_function() {
    assert_eq!(
        run(parse_function_call, "$(warning,$(greeting,Hello,Jean-Louis))"),
        Ok((
            "".to_string(),
            call(
                "warning",
                vec![param(vec![ExpressionToken::Function(Box::new(call(
                    "greeting",
                    vec![param(vec![lit("Hello")]), param(vec![lit("Jean-Louis")])]
                )))])]
            )
        ))
    )
}

#[test]
fn test_parse_function_call_complex_expression() {
    assert_eq!(
        run(parse_function_call, "$(warning,filename=$(filename))"),
        Ok((
            "".to_string(),
            call(
                "warning",
                vec![param(vec![
                    lit("filename"),
                    lit("="),
                    ExpressionToken::Function(Box::new(call("filename", vec![])))
                ])]
            )
        ))
    )
}

#[test]
fn test_parse_function_call_special_chars() {
    assert_eq!(
        run(parse_function_call, "$(as-instr,.arch armv8.5-a+memtag)"),
        Ok((
            "".to_string(),
            call(
                "as-instr",
                vec![param(vec![lit(".arch"), ExpressionToken::Space, lit("armv8.5-a+memtag")])]
            )
        ))
    )
}

#[test]
fn test_parse_function_call_special_backtick() {
    let input = r#"$(success, test `$(PAHOLE) --version | sed -E 's/v([0-9]+)\.([0-9]+)/\1\2/'` -ge "119")"#;
    assert_eq!(
        run(parse_function_call, input),
        Ok((
            "".to_string(),
            call(
                "success",
                vec![param(vec![
                    lit("test"),
                    ExpressionToken::Space,
                    ExpressionToken::Backtick(
                        "$(PAHOLE) --version | sed -E 's/v([0-9]+)\\.([0-9]+)/\\1\\2/'".to_string()
                    ),
                    ExpressionToken::Space,
                    lit("-ge"),
                    ExpressionToken::Space,
                    ExpressionToken::DoubleQuotes(vec![lit("119")])
                ])]
            )
        ))
    )
}

#[test]
fn test_parameter_to_string() {
    assert_eq!(param(vec![lit("ls"), ExpressionToken::Space, lit("-la")]).to_string(), "ls -la")
}

#[test]
fn test_function_to_string() {
    assert_eq!(
        call(
            "warning",
            vec![
                param(vec![lit("ls"), ExpressionToken::Space, lit("-la")]),
                param(vec![
                    lit("echo"),
                    ExpressionToken::Space,
                    ExpressionToken::Variable("HOME".to_string())
                ])
            ]
        )
        .to_string(),
        "$(warning, ls -la, echo $HOME)"
    )
}

#[test]
fn test_expression_token_to_string() {
    assert_eq!(lit("ls").to_string(), "ls");
    assert_eq!(ExpressionToken::Space.to_string(), " ");
    assert_eq!(ExpressionToken::Variable("PWD".to_string()).to_string(), "$PWD");
    assert_eq!(
        ExpressionToken::DoubleQuotes(vec![lit("hello"), ExpressionToken::Space, lit("world")])
            .to_string(),
        r#""hello world""#
    );
    assert_eq!(ExpressionToken::SingleQuotes("hello".to_string()).to_string(), "'hello'");
    assert_eq!(ExpressionToken::Backtick("hello".to_string()).to_string(), "`hello`");
    assert_eq!(
        ExpressionToken::Function(Box::new(call("warning", vec![]))).to_string(),
        "$(warning)"
    );
}

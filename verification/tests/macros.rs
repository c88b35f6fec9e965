use cairo_writer::fmt::macros::{cwrite_element, cwrite_elements, cwrite_repetition, cwrite_wrapped};
use cairo_writer::macros::{
    MacroDeclarationItem, MacroElement, MacroParam, MacroParamKind, MacroRepetition,
    MacroRepetitionOperator, MacroRule, TokenNode, WrappedMacro,
};
use cairo_writer::{CairoWrite, CairoWriteSlice, SinkFailure, StringSink};

fn ident(name: &str) -> MacroElement {
    MacroElement::Token(TokenNode::Identifier(name.to_string()))
}

fn number(text: &str) -> MacroElement {
    MacroElement::Token(TokenNode::LiteralNumber(text.to_string()))
}

fn param(name: &str, kind: Option<MacroParamKind>) -> MacroParam {
    MacroParam { name: name.to_string(), kind }
}

#[test]
fn a_rule_renders_its_pattern_an_arrow_and_its_braced_expansion() {
    let rule = MacroRule {
        lhs: ident("foo"),
        rhs: vec![MacroElement::Token(TokenNode::Plus), number("1")],
    };
    assert_eq!(rule.render_to_string(), "foo => {+1};");
    assert_eq!(rule.size_hint(), 12);
}

#[test]
fn a_rule_with_a_bracketed_pattern_and_an_empty_expansion() {
    let rule = MacroRule {
        lhs: MacroElement::Subtree(WrappedMacro::Parenthesized(vec![])),
        rhs: vec![],
    };
    assert_eq!(rule.render_to_string(), "() => {};");
}

#[test]
fn repetition_operators() {
    assert_eq!(MacroRepetitionOperator::ZeroOrOne.render_to_string(), "?");
    assert_eq!(MacroRepetitionOperator::ZeroOrMore.render_to_string(), "*");
    assert_eq!(MacroRepetitionOperator::OneOrMore.render_to_string(), "+");
    assert_eq!(MacroRepetitionOperator::Missing.render_to_string(), "");
}

#[test]
fn parameter_kinds() {
    assert_eq!(MacroParamKind::Identifier("ident".to_string()).render_to_string(), "ident");
    assert_eq!(MacroParamKind::Expr("expr".to_string()).render_to_string(), "expr");
    assert_eq!(MacroParamKind::Missing.render_to_string(), "");
}

#[test]
fn a_parameter_with_and_without_a_kind() {
    assert_eq!(param("x", None).render_to_string(), "$x");
    let with_kind = param("x", Some(MacroParamKind::Expr("expr".to_string())));
    assert_eq!(with_kind.render_to_string(), "$x:expr");
    assert_eq!(param("x", Some(MacroParamKind::Missing)).render_to_string(), "$x:");
}

#[test]
fn bracketed_groups() {
    let elements = || vec![ident("a"), MacroElement::Token(TokenNode::Comma), ident("b")];
    assert_eq!(WrappedMacro::Parenthesized(elements()).render_to_string(), "(a,b)");
    assert_eq!(WrappedMacro::Braced(elements()).render_to_string(), "{a,b}");
    assert_eq!(WrappedMacro::Bracketed(elements()).render_to_string(), "[a,b]");
    assert_eq!(WrappedMacro::Bracketed(vec![]).render_to_string(), "[]");
}

#[test]
fn a_repetition_with_and_without_a_comma() {
    let with_comma = MacroRepetition {
        elements: vec![MacroElement::Param(param("x", Some(MacroParamKind::Expr("expr".to_string()))))],
        comma: true,
        operator: MacroRepetitionOperator::ZeroOrMore,
    };
    assert_eq!(with_comma.render_to_string(), "$($x:expr),*");
    let without = MacroRepetition {
        elements: vec![ident("y")],
        comma: false,
        operator: MacroRepetitionOperator::OneOrMore,
    };
    assert_eq!(without.render_to_string(), "$(y)+");
    let bare = MacroRepetition { elements: vec![], comma: false, operator: MacroRepetitionOperator::Missing };
    assert_eq!(bare.render_to_string(), "$()");
}

#[test]
fn elements_nest() {
    let inner = MacroElement::Repetition(MacroRepetition {
        elements: vec![
            MacroElement::Param(param("k", Some(MacroParamKind::Identifier("ident".to_string())))),
            MacroElement::Token(TokenNode::MatchArrow),
            MacroElement::Subtree(WrappedMacro::Bracketed(vec![MacroElement::Param(param("v", None))])),
        ],
        comma: true,
        operator: MacroRepetitionOperator::ZeroOrMore,
    });
    let outer = MacroElement::Subtree(WrappedMacro::Braced(vec![ident("map"), inner]));
    assert_eq!(outer.render_to_string(), "{map$($k:ident=>[$v]),*}");
    assert_eq!(outer.size_hint(), 24);
}

#[test]
fn the_free_functions_write_what_the_values_render() {
    let elements = vec![ident("a"), number("1")];
    let mut sink = StringSink::new();
    cwrite_elements(&elements, &mut sink).unwrap();
    cwrite_element(&elements[0], &mut sink).unwrap();
    cwrite_wrapped(&WrappedMacro::Braced(vec![ident("w")]), &mut sink).unwrap();
    let repetition = MacroRepetition {
        elements: vec![ident("r")],
        comma: false,
        operator: MacroRepetitionOperator::ZeroOrOne,
    };
    cwrite_repetition(&repetition, &mut sink).unwrap();
    assert_eq!(sink.as_str(), "a1a{w}$(r)?");
}

#[test]
fn elements_concatenate_like_any_sequence() {
    let elements = vec![ident("a"), number("1"), MacroElement::Token(TokenNode::Semicolon)];
    let mut by_rule = StringSink::new();
    elements.cwrite_concatenated(&mut by_rule).unwrap();
    let mut by_function = StringSink::new();
    cwrite_elements(&elements, &mut by_function).unwrap();
    assert_eq!(by_rule.as_str(), "a1;");
    assert_eq!(by_function.as_str(), "a1;");
}

#[test]
fn a_declaration_renders_its_rules_as_a_block() {
    let declaration = MacroDeclarationItem {
        attributes: "#[doc(hidden)]\n".to_string(),
        visibility: "pub ".to_string(),
        name: "add_one".to_string(),
        rules: vec![
            MacroRule {
                lhs: MacroElement::Subtree(WrappedMacro::Parenthesized(vec![MacroElement::Param(
                    param("x", Some(MacroParamKind::Expr("expr".to_string()))),
                )])),
                rhs: vec![MacroElement::Param(param("x", None)), MacroElement::Token(TokenNode::Plus), number("1")],
            },
            MacroRule { lhs: MacroElement::Subtree(WrappedMacro::Parenthesized(vec![])), rhs: vec![number("1")] },
        ],
    };
    assert_eq!(
        declaration.render_to_string(),
        "#[doc(hidden)]\npub macro add_one {\n\n($x:expr) => {$x+1};\n() => {1};\n\n}"
    );
}

#[test]
fn a_declaration_without_rules() {
    let declaration = MacroDeclarationItem {
        attributes: String::new(),
        visibility: String::new(),
        name: "nothing".to_string(),
        rules: vec![],
    };
    assert_eq!(declaration.render_to_string(), "macro nothing {\n\n}");
}

#[test]
fn a_rule_that_does_not_fit_fails_and_keeps_what_was_written() {
    let rule = MacroRule { lhs: ident("foo"), rhs: vec![MacroElement::Token(TokenNode::Plus), number("1")] };
    let mut sink = StringSink::with_room(11);
    assert_eq!(rule.cwrite(&mut sink), Err(SinkFailure));
    assert_eq!(sink.as_str(), "foo => {+1}");
    let mut enough = StringSink::with_room(12);
    assert_eq!(rule.cwrite(&mut enough), Ok(()));
    assert_eq!(enough.as_str(), "foo => {+1};");
}

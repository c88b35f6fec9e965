use cairo_writer::macros::TokenNode;
use cairo_writer::{CairoWrite, SinkFailure, StringSink};

fn spelled(node: TokenNode) -> String {
    node.render_to_string()
}

#[test]
fn keywords_are_spelled_as_themselves() {
    assert_eq!(spelled(TokenNode::As), "as");
    assert_eq!(spelled(TokenNode::Const), "const");
    assert_eq!(spelled(TokenNode::Else), "else");
    assert_eq!(spelled(TokenNode::Enum), "enum");
    assert_eq!(spelled(TokenNode::Extern), "extern");
    assert_eq!(spelled(TokenNode::False), "false");
    assert_eq!(spelled(TokenNode::Function), "function");
    assert_eq!(spelled(TokenNode::If), "if");
    assert_eq!(spelled(TokenNode::While), "while");
    assert_eq!(spelled(TokenNode::For), "for");
    assert_eq!(spelled(TokenNode::Loop), "loop");
    assert_eq!(spelled(TokenNode::Impl), "impl");
    assert_eq!(spelled(TokenNode::Implicits), "implicits");
    assert_eq!(spelled(TokenNode::Let), "let");
    assert_eq!(spelled(TokenNode::Macro), "macro");
    assert_eq!(spelled(TokenNode::Match), "match");
    assert_eq!(spelled(TokenNode::Module), "module");
    assert_eq!(spelled(TokenNode::Mut), "mut");
    assert_eq!(spelled(TokenNode::NoPanic), "no_panic");
    assert_eq!(spelled(TokenNode::Of), "of");
    assert_eq!(spelled(TokenNode::Ref), "ref");
    assert_eq!(spelled(TokenNode::Continue), "continue");
    assert_eq!(spelled(TokenNode::Return), "return");
    assert_eq!(spelled(TokenNode::Break), "break");
    assert_eq!(spelled(TokenNode::Struct), "struct");
    assert_eq!(spelled(TokenNode::Trait), "trait");
    assert_eq!(spelled(TokenNode::True), "true");
    assert_eq!(spelled(TokenNode::Type), "type");
    assert_eq!(spelled(TokenNode::Use), "use");
    assert_eq!(spelled(TokenNode::Pub), "pub");
}

#[test]
fn punctuation_is_spelled_exactly() {
    assert_eq!(spelled(TokenNode::And), "&");
    assert_eq!(spelled(TokenNode::AndAnd), "&&");
    assert_eq!(spelled(TokenNode::Arrow), "->");
    assert_eq!(spelled(TokenNode::At), "@");
    assert_eq!(spelled(TokenNode::Colon), ":");
    assert_eq!(spelled(TokenNode::ColonColon), "::");
    assert_eq!(spelled(TokenNode::Comma), ",");
    assert_eq!(spelled(TokenNode::Div), "/");
    assert_eq!(spelled(TokenNode::Dollar), "$");
    assert_eq!(spelled(TokenNode::Dot), ".");
    assert_eq!(spelled(TokenNode::DotDot), "..");
    assert_eq!(spelled(TokenNode::DotDotEq), "..=");
    assert_eq!(spelled(TokenNode::Eq), "=");
    assert_eq!(spelled(TokenNode::EqEq), "==");
    assert_eq!(spelled(TokenNode::GE), ">=");
    assert_eq!(spelled(TokenNode::GT), ">");
    assert_eq!(spelled(TokenNode::Hash), "#");
    assert_eq!(spelled(TokenNode::LBrace), "{");
    assert_eq!(spelled(TokenNode::LBrack), "[");
    assert_eq!(spelled(TokenNode::LE), "<=");
    assert_eq!(spelled(TokenNode::LParen), "(");
    assert_eq!(spelled(TokenNode::LT), "<");
    assert_eq!(spelled(TokenNode::MatchArrow), "=>");
    assert_eq!(spelled(TokenNode::Minus), "-");
    assert_eq!(spelled(TokenNode::MinusEq), "-=");
    assert_eq!(spelled(TokenNode::Mod), "%");
    assert_eq!(spelled(TokenNode::ModEq), "%=");
    assert_eq!(spelled(TokenNode::Mul), "*");
    assert_eq!(spelled(TokenNode::MulEq), "*=");
    assert_eq!(spelled(TokenNode::Neq), "!=");
    assert_eq!(spelled(TokenNode::Not), "!");
    assert_eq!(spelled(TokenNode::BitNot), "~");
    assert_eq!(spelled(TokenNode::Or), "|");
    assert_eq!(spelled(TokenNode::OrOr), "||");
    assert_eq!(spelled(TokenNode::Plus), "+");
    assert_eq!(spelled(TokenNode::PlusEq), "+=");
    assert_eq!(spelled(TokenNode::QuestionMark), "?");
    assert_eq!(spelled(TokenNode::RBrace), "}");
    assert_eq!(spelled(TokenNode::RBrack), "]");
    assert_eq!(spelled(TokenNode::RParen), ")");
    assert_eq!(spelled(TokenNode::Semicolon), ";");
    assert_eq!(spelled(TokenNode::Underscore), "_");
    assert_eq!(spelled(TokenNode::Xor), "^");
}

#[test]
fn divide_and_assign_is_spelled_as_divide() {
    // The table gives both categories the same text.
    assert_eq!(spelled(TokenNode::DivEq), "/");
    assert_eq!(spelled(TokenNode::DivEq), spelled(TokenNode::Div));
}

#[test]
fn the_end_of_the_file_and_the_empty_token_are_spelled_as_nothing() {
    assert_eq!(spelled(TokenNode::EndOfFile), "");
    assert_eq!(spelled(TokenNode::Empty), "");
}

#[test]
fn tokens_with_text_pass_it_through() {
    assert_eq!(spelled(TokenNode::Identifier("foo".to_string())), "foo");
    assert_eq!(spelled(TokenNode::LiteralNumber("0x1f_u8".to_string())), "0x1f_u8");
    assert_eq!(spelled(TokenNode::ShortString("'short'".to_string())), "'short'");
    assert_eq!(spelled(TokenNode::String("\"a \\\"b\\\" €\"".to_string())), "\"a \\\"b\\\" €\"");
    assert_eq!(spelled(TokenNode::BadCharacters("\u{1}\u{2}".to_string())), "\u{1}\u{2}");
    assert_eq!(spelled(TokenNode::Identifier(String::new())), "");
}

#[test]
fn a_token_is_measured_as_it_is_written() {
    assert_eq!(TokenNode::Implicits.size_hint(), 9);
    assert_eq!(TokenNode::DotDotEq.size_hint(), 3);
    assert_eq!(TokenNode::EndOfFile.size_hint(), 0);
    assert_eq!(TokenNode::Identifier("né".to_string()).size_hint(), 3);
}

#[test]
fn a_token_that_does_not_fit_is_not_written() {
    let mut sink = StringSink::with_room(4);
    assert_eq!(TokenNode::Const.cwrite(&mut sink), Err(SinkFailure));
    assert_eq!(sink.as_str(), "");
    assert_eq!(TokenNode::Enum.cwrite(&mut sink), Ok(()));
    assert_eq!(TokenNode::Empty.cwrite(&mut sink), Ok(()));
    assert_eq!(TokenNode::Comma.cwrite(&mut sink), Err(SinkFailure));
    assert_eq!(sink.as_str(), "enum");
}

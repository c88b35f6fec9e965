//! The source text of macro syntax: the literal-token table and the rules for
//! parameters, repetitions, bracketed groups, rules and declarations.
use crate::fmt::cairo_write::{block_text, texts, CairoWrite, CairoWriteSlice};
use crate::macros::{
    MacroDeclarationItem, MacroElement, MacroParam, MacroParamKind, MacroRepetition,
    MacroRepetitionOperator, MacroRule, TokenNode, WrappedMacro,
};
use crate::sink::{
    emitted, lemma_emitted_nothing, lemma_first_render, lemma_first_write, lemma_step_render,
    lemma_step_write, lemma_write_is_render, rendered, Sink, SinkFailure,
};
use crate::text::{concat_text, lemma_concat_step, lemma_join_none};
use vstd::prelude::*;

verus! {

impl TokenNode {
    /// The token carries its own text.
    pub open spec fn carries_text(&self) -> bool {
        match self {
            TokenNode::Identifier(s)
            | TokenNode::LiteralNumber(s)
            | TokenNode::ShortString(s)
            | TokenNode::String(s)
            | TokenNode::BadCharacters(s) => true,
            _ => false,
        }
    }

    /// The text that the token carries; nothing where it carries none.
    pub open spec fn carried_text(&self) -> Seq<char> {
        match self {
            TokenNode::Identifier(s)
            | TokenNode::LiteralNumber(s)
            | TokenNode::ShortString(s)
            | TokenNode::String(s)
            | TokenNode::BadCharacters(s) => s@,
            _ => Seq::empty(),
        }
    }
}

/// The literal-token table: every syntax category has exactly one spelling.
/// A keyword or punctuation mark is spelled as itself, a token that carries
/// text is spelled as that text, and the end of the file and the empty token
/// are spelled as nothing.
impl CairoWrite for TokenNode {
    open spec fn text(&self) -> Seq<char> {
        match self {
            TokenNode::Identifier(s)
            | TokenNode::LiteralNumber(s)
            | TokenNode::ShortString(s)
            | TokenNode::String(s)
            | TokenNode::BadCharacters(s) => s@,
            TokenNode::As => "as"@,
            TokenNode::Const => "const"@,
            TokenNode::Else => "else"@,
            TokenNode::Enum => "enum"@,
            TokenNode::Extern => "extern"@,
            TokenNode::False => "false"@,
            TokenNode::Function => "function"@,
            TokenNode::If => "if"@,
            TokenNode::While => "while"@,
            TokenNode::For => "for"@,
            TokenNode::Loop => "loop"@,
            TokenNode::Impl => "impl"@,
            TokenNode::Implicits => "implicits"@,
            TokenNode::Let => "let"@,
            TokenNode::Macro => "macro"@,
            TokenNode::Match => "match"@,
            TokenNode::Module => "module"@,
            TokenNode::Mut => "mut"@,
            TokenNode::NoPanic => "no_panic"@,
            TokenNode::Of => "of"@,
            TokenNode::Ref => "ref"@,
            TokenNode::Continue => "continue"@,
            TokenNode::Return => "return"@,
            TokenNode::Break => "break"@,
            TokenNode::Struct => "struct"@,
            TokenNode::Trait => "trait"@,
            TokenNode::True => "true"@,
            TokenNode::Type => "type"@,
            TokenNode::Use => "use"@,
            TokenNode::Pub => "pub"@,
            TokenNode::And => "&"@,
            TokenNode::AndAnd => "&&"@,
            TokenNode::Arrow => "->"@,
            TokenNode::At => "@"@,
            TokenNode::Colon => ":"@,
            TokenNode::ColonColon => "::"@,
            TokenNode::Comma => ","@,
            TokenNode::Div => "/"@,
            TokenNode::DivEq => "/"@,
            TokenNode::Dollar => "$"@,
            TokenNode::Dot => "."@,
            TokenNode::DotDot => ".."@,
            TokenNode::DotDotEq => "..="@,
            TokenNode::EndOfFile => ""@,
            TokenNode::Eq => "="@,
            TokenNode::EqEq => "=="@,
            TokenNode::GE => ">="@,
            TokenNode::GT => ">"@,
            TokenNode::Hash => "#"@,
            TokenNode::LBrace => "{"@,
            TokenNode::LBrack => "["@,
            TokenNode::LE => "<="@,
            TokenNode::LParen => "("@,
            TokenNode::LT => "<"@,
            TokenNode::MatchArrow => "=>"@,
            TokenNode::Minus => "-"@,
            TokenNode::MinusEq => "-="@,
            TokenNode::Mod => "%"@,
            TokenNode::ModEq => "%="@,
            TokenNode::Mul => "*"@,
            TokenNode::MulEq => "*="@,
            TokenNode::Neq => "!="@,
            TokenNode::Not => "!"@,
            TokenNode::BitNot => "~"@,
            TokenNode::Or => "|"@,
            TokenNode::OrOr => "||"@,
            TokenNode::Plus => "+"@,
            TokenNode::PlusEq => "+="@,
            TokenNode::QuestionMark => "?"@,
            TokenNode::RBrace => "}"@,
            TokenNode::RBrack => "]"@,
            TokenNode::RParen => ")"@,
            TokenNode::Semicolon => ";"@,
            TokenNode::Underscore => "_"@,
            TokenNode::Xor => "^"@,
            TokenNode::Empty => ""@,
        }
    }

    fn cwrite<W: Sink>(&self, buf: &mut W) -> (r: Result<(), SinkFailure>) {
        proof {
            lemma_write_is_render(buf@, self.text());
        }
        match self {
            TokenNode::Identifier(s)
            | TokenNode::LiteralNumber(s)
            | TokenNode::ShortString(s)
            | TokenNode::String(s) => buf.write_str(s.as_str()),
            TokenNode::BadCharacters(s) => buf.write_str(s.as_str()),
            TokenNode::As => buf.write_str("as"),
            TokenNode::Const => buf.write_str("const"),
            TokenNode::Else => buf.write_str("else"),
            TokenNode::Enum => buf.write_str("enum"),
            TokenNode::Extern => buf.write_str("extern"),
            TokenNode::False => buf.write_str("false"),
            TokenNode::Function => buf.write_str("function"),
            TokenNode::If => buf.write_str("if"),
            TokenNode::While => buf.write_str("while"),
            TokenNode::For => buf.write_str("for"),
            TokenNode::Loop => buf.write_str("loop"),
            TokenNode::Impl => buf.write_str("impl"),
            TokenNode::Implicits => buf.write_str("implicits"),
            TokenNode::Let => buf.write_str("let"),
            TokenNode::Macro => buf.write_str("macro"),
            TokenNode::Match => buf.write_str("match"),
            TokenNode::Module => buf.write_str("module"),
            TokenNode::Mut => buf.write_str("mut"),
            TokenNode::NoPanic => buf.write_str("no_panic"),
            TokenNode::Of => buf.write_str("of"),
            TokenNode::Ref => buf.write_str("ref"),
            TokenNode::Continue => buf.write_str("continue"),
            TokenNode::Return => buf.write_str("return"),
            TokenNode::Break => buf.write_str("break"),
            TokenNode::Struct => buf.write_str("struct"),
            TokenNode::Trait => buf.write_str("trait"),
            TokenNode::True => buf.write_str("true"),
            TokenNode::Type => buf.write_str("type"),
            TokenNode::Use => buf.write_str("use"),
            TokenNode::Pub => buf.write_str("pub"),
            TokenNode::And => buf.write_str("&"),
            TokenNode::AndAnd => buf.write_str("&&"),
            TokenNode::Arrow => buf.write_str("->"),
            TokenNode::At => buf.write_str("@"),
            TokenNode::Colon => buf.write_str(":"),
            TokenNode::ColonColon => buf.write_str("::"),
            TokenNode::Comma => buf.write_str(","),
            TokenNode::Div => buf.write_str("/"),
            TokenNode::DivEq => buf.write_str("/"),
            TokenNode::Dollar => buf.write_str("$"),
            TokenNode::Dot => buf.write_str("."),
            TokenNode::DotDot => buf.write_str(".."),
            TokenNode::DotDotEq => buf.write_str("..="),
            TokenNode::EndOfFile => buf.write_str(""),
            TokenNode::Eq => buf.write_str("="),
            TokenNode::EqEq => buf.write_str("=="),
            TokenNode::GE => buf.write_str(">="),
            TokenNode::GT => buf.write_str(">"),
            TokenNode::Hash => buf.write_str("#"),
            TokenNode::LBrace => buf.write_str("{"),
            TokenNode::LBrack => buf.write_str("["),
            TokenNode::LE => buf.write_str("<="),
            TokenNode::LParen => buf.write_str("("),
            TokenNode::LT => buf.write_str("<"),
            TokenNode::MatchArrow => buf.write_str("=>"),
            TokenNode::Minus => buf.write_str("-"),
            TokenNode::MinusEq => buf.write_str("-="),
            TokenNode::Mod => buf.write_str("%"),
            TokenNode::ModEq => buf.write_str("%="),
            TokenNode::Mul => buf.write_str("*"),
            TokenNode::MulEq => buf.write_str("*="),
            TokenNode::Neq => buf.write_str("!="),
            TokenNode::Not => buf.write_str("!"),
            TokenNode::BitNot => buf.write_str("~"),
            TokenNode::Or => buf.write_str("|"),
            TokenNode::OrOr => buf.write_str("||"),
            TokenNode::Plus => buf.write_str("+"),
            TokenNode::PlusEq => buf.write_str("+="),
            TokenNode::QuestionMark => buf.write_str("?"),
            TokenNode::RBrace => buf.write_str("}"),
            TokenNode::RBrack => buf.write_str("]"),
            TokenNode::RParen => buf.write_str(")"),
            TokenNode::Semicolon => buf.write_str(";"),
            TokenNode::Underscore => buf.write_str("_"),
            TokenNode::Xor => buf.write_str("^"),
            TokenNode::Empty => buf.write_str(""),
        }
    }
}

/// The table is total and leaves nothing out: a token that carries text is
/// spelled as that text, unchanged; any other token has a spelling of at least
/// one character, but for the end of the file and the empty token, which have
/// none.
pub proof fn lemma_token_spelling(node: TokenNode)
    ensures
        node.carries_text() ==> node.text() == node.carried_text(),
        !node.carries_text() ==> (node.text().len() == 0 <==> (node is EndOfFile
            || node is Empty)),
        !node.carries_text() ==> node.text().len() <= 9,
{
    reveal_strlit("as");
    reveal_strlit("const");
    reveal_strlit("else");
    reveal_strlit("enum");
    reveal_strlit("extern");
    reveal_strlit("false");
    reveal_strlit("function");
    reveal_strlit("if");
    reveal_strlit("while");
    reveal_strlit("for");
    reveal_strlit("loop");
    reveal_strlit("impl");
    reveal_strlit("implicits");
    reveal_strlit("let");
    reveal_strlit("macro");
    reveal_strlit("match");
    reveal_strlit("module");
    reveal_strlit("mut");
    reveal_strlit("no_panic");
    reveal_strlit("of");
    reveal_strlit("ref");
    reveal_strlit("continue");
    reveal_strlit("return");
    reveal_strlit("break");
    reveal_strlit("struct");
    reveal_strlit("trait");
    reveal_strlit("true");
    reveal_strlit("type");
    reveal_strlit("use");
    reveal_strlit("pub");
    reveal_strlit("&");
    reveal_strlit("&&");
    reveal_strlit("->");
    reveal_strlit("@");
    reveal_strlit(":");
    reveal_strlit("::");
    reveal_strlit(",");
    reveal_strlit("/");
    reveal_strlit("$");
    reveal_strlit(".");
    reveal_strlit("..");
    reveal_strlit("..=");
    reveal_strlit("");
    reveal_strlit("=");
    reveal_strlit("==");
    reveal_strlit(">=");
    reveal_strlit(">");
    reveal_strlit("#");
    reveal_strlit("{");
    reveal_strlit("[");
    reveal_strlit("<=");
    reveal_strlit("(");
    reveal_strlit("<");
    reveal_strlit("=>");
    reveal_strlit("-");
    reveal_strlit("-=");
    reveal_strlit("%");
    reveal_strlit("%=");
    reveal_strlit("*");
    reveal_strlit("*=");
    reveal_strlit("!=");
    reveal_strlit("!");
    reveal_strlit("~");
    reveal_strlit("|");
    reveal_strlit("||");
    reveal_strlit("+");
    reveal_strlit("+=");
    reveal_strlit("?");
    reveal_strlit("}");
    reveal_strlit("]");
    reveal_strlit(")");
    reveal_strlit(";");
    reveal_strlit("_");
    reveal_strlit("^");
}

impl CairoWrite for MacroRepetitionOperator {
    open spec fn text(&self) -> Seq<char> {
        match self {
            MacroRepetitionOperator::ZeroOrOne => "?"@,
            MacroRepetitionOperator::ZeroOrMore => "*"@,
            MacroRepetitionOperator::OneOrMore => "+"@,
            MacroRepetitionOperator::Missing => Seq::empty(),
        }
    }

    fn cwrite<W: Sink>(&self, buf: &mut W) -> (r: Result<(), SinkFailure>) {
        proof {
            lemma_write_is_render(buf@, self.text());
            lemma_emitted_nothing(buf@);
        }
        match self {
            MacroRepetitionOperator::ZeroOrOne => buf.write_str("?"),
            MacroRepetitionOperator::ZeroOrMore => buf.write_str("*"),
            MacroRepetitionOperator::OneOrMore => buf.write_str("+"),
            MacroRepetitionOperator::Missing => Ok(()),
        }
    }
}

impl CairoWrite for MacroParamKind {
    open spec fn text(&self) -> Seq<char> {
        match self {
            MacroParamKind::Identifier(value) | MacroParamKind::Expr(value) => value@,
            MacroParamKind::Missing => Seq::empty(),
        }
    }

    fn cwrite<W: Sink>(&self, buf: &mut W) -> (r: Result<(), SinkFailure>) {
        proof {
            lemma_write_is_render(buf@, self.text());
            lemma_emitted_nothing(buf@);
        }
        match self {
            MacroParamKind::Identifier(value) | MacroParamKind::Expr(value) => buf.write_str(
                value.as_str(),
            ),
            MacroParamKind::Missing => Ok(()),
        }
    }
}

impl MacroParam {
    /// The colon and the kind, where the parameter has a kind.
    pub open spec fn kind_text(&self) -> Seq<char> {
        match self.kind {
            Some(kind) => seq![':'] + kind.text(),
            None => Seq::empty(),
        }
    }
}

impl CairoWrite for MacroParam {
    open spec fn text(&self) -> Seq<char> {
        seq!['$'] + self.name@ + self.kind_text()
    }

    fn cwrite<W: Sink>(&self, buf: &mut W) -> (r: Result<(), SinkFailure>) {
        let ghost total = self.text();
        proof {
            lemma_first_write(buf@, seq!['$'], total);
        }
        buf.write_char('$')?;
        proof {
            lemma_step_render(old(buf)@, buf@, seq!['$'], self.name@, total);
        }
        self.name.cwrite(buf)?;
        if let Some(kind) = &self.kind {
            proof {
                lemma_step_render(
                    old(buf)@,
                    buf@,
                    seq!['$'] + self.name@,
                    seq![':'] + kind.text(),
                    total,
                );
            }
            kind.cwrite_prefixed(buf, ':')
        } else {
            proof {
                assert(total =~= seq!['$'] + self.name@);
            }
            Ok(())
        }
    }
}

/// The text of one element.
pub open spec fn element_text(element: MacroElement) -> Seq<char>
    decreases element,
{
    match element {
        MacroElement::Token(token) => token.text(),
        MacroElement::Param(param) => param.text(),
        MacroElement::Subtree(wrapped) => wrapped_text(wrapped),
        MacroElement::Repetition(repetition) => repetition_text(repetition),
    }
}

/// The text of elements between brackets: the opening bracket, the elements
/// one after the other, and the closing bracket.
pub open spec fn wrapped_text(wrapped: WrappedMacro) -> Seq<char>
    decreases wrapped,
{
    match wrapped {
        WrappedMacro::Parenthesized(elements) => seq!['('] + elements_text(elements@) + seq![')'],
        WrappedMacro::Braced(elements) => seq!['{'] + elements_text(elements@) + seq!['}'],
        WrappedMacro::Bracketed(elements) => seq!['['] + elements_text(elements@) + seq![']'],
    }
}

/// The comma of a repetition, where it has one.
pub open spec fn comma_text(comma: bool) -> Seq<char> {
    if comma {
        seq![',']
    } else {
        Seq::empty()
    }
}

/// The text of a repetition: `$`, the elements between parentheses, the
/// comma where there is one, and the operator.
pub open spec fn repetition_text(repetition: MacroRepetition) -> Seq<char>
    decreases repetition,
{
    seq!['$'] + (seq!['('] + elements_text(repetition.elements@) + seq![')']) + comma_text(
        repetition.comma,
    ) + repetition.operator.text()
}

/// The texts of the elements, one after the other.
pub open spec fn elements_text(elements: Seq<MacroElement>) -> Seq<char>
    decreases elements,
{
    if elements.len() == 0 {
        Seq::empty()
    } else {
        elements_text(elements.drop_last()) + element_text(elements.last())
    }
}

/// The text of each element, in order.
pub open spec fn element_texts(elements: Seq<MacroElement>) -> Seq<Seq<char>> {
    elements.map_values(|e: MacroElement| element_text(e))
}

/// The text of elements is the concatenation of their texts.
pub proof fn lemma_elements_text(elements: Seq<MacroElement>)
    ensures
        elements_text(elements) == concat_text(element_texts(elements)),
    decreases elements.len(),
{
    let parts = element_texts(elements);
    if elements.len() == 0 {
    } else {
        lemma_elements_text(elements.drop_last());
        assert(parts.drop_last() =~= element_texts(elements.drop_last()));
        if elements.len() == 1 {
            assert(elements_text(elements.drop_last()) =~= Seq::<char>::empty());
            assert(elements_text(elements) =~= element_text(elements.last()));
        } else {
            assert(elements_text(elements) =~= concat_text(parts.drop_last()) + Seq::<char>::empty()
                + parts.last());
        }
    }
}

/// Writes the elements one after the other.
pub fn cwrite_elements<W: Sink>(elements: &Vec<MacroElement>, buf: &mut W) -> (r: Result<
    (),
    SinkFailure,
>)
    ensures
        rendered(old(buf)@, final(buf)@, elements_text(elements@), r),
    decreases elements, 0nat,
{
    let ghost parts = element_texts(elements@);
    let ghost total = concat_text(parts);
    proof {
        lemma_elements_text(elements@);
        lemma_emitted_nothing(buf@);
        lemma_join_none(parts, Seq::empty());
    }
    let mut i: usize = 0;
    while i < elements.len()
        invariant
            i <= elements.len(),
            parts == element_texts(elements@),
            total == concat_text(parts),
            total == elements_text(elements@),
            emitted(old(buf)@, buf@, concat_text(parts.take(i as int))),
        decreases elements.len() - i,
    {
        let ghost acc = concat_text(parts.take(i as int));
        proof {
            lemma_concat_step(parts, i as int);
            lemma_step_render(old(buf)@, buf@, acc, parts[i as int], total);
        }
        cwrite_element(&elements[i], buf)?;
        i += 1;
    }
    proof {
        assert(parts.take(i as int) =~= parts);
    }
    Ok(())
}

/// Writes the elements one after the other, between `open` and `close`.
fn cwrite_elements_wrapped<W: Sink>(
    elements: &Vec<MacroElement>,
    buf: &mut W,
    open: char,
    close: char,
) -> (r: Result<(), SinkFailure>)
    ensures
        rendered(
            old(buf)@,
            final(buf)@,
            seq![open] + elements_text(elements@) + seq![close],
            r,
        ),
    decreases elements, 1nat,
{
    let ghost inner = elements_text(elements@);
    let ghost total = seq![open] + inner + seq![close];
    proof {
        lemma_first_write(buf@, seq![open], total);
    }
    buf.write_char(open)?;
    proof {
        lemma_step_render(old(buf)@, buf@, seq![open], inner, total);
    }
    cwrite_elements(elements, buf)?;
    proof {
        lemma_step_write(old(buf)@, buf@, seq![open] + inner, seq![close], total);
    }
    buf.write_char(close)
}

/// Writes one element.
pub fn cwrite_element<W: Sink>(element: &MacroElement, buf: &mut W) -> (r: Result<
    (),
    SinkFailure,
>)
    ensures
        rendered(old(buf)@, final(buf)@, element_text(*element), r),
    decreases element, 0nat,
{
    match element {
        MacroElement::Token(t) => t.cwrite(buf),
        MacroElement::Param(p) => p.cwrite(buf),
        MacroElement::Subtree(r) => cwrite_wrapped(r, buf),
        MacroElement::Repetition(w) => cwrite_repetition(w, buf),
    }
}

/// Writes elements between the brackets of their group.
pub fn cwrite_wrapped<W: Sink>(wrapped: &WrappedMacro, buf: &mut W) -> (r: Result<
    (),
    SinkFailure,
>)
    ensures
        rendered(old(buf)@, final(buf)@, wrapped_text(*wrapped), r),
    decreases wrapped, 0nat,
{
    match wrapped {
        WrappedMacro::Parenthesized(elements) => cwrite_elements_wrapped(elements, buf, '(', ')'),
        WrappedMacro::Braced(elements) => cwrite_elements_wrapped(elements, buf, '{', '}'),
        WrappedMacro::Bracketed(elements) => cwrite_elements_wrapped(elements, buf, '[', ']'),
    }
}

/// Writes a repetition.
pub fn cwrite_repetition<W: Sink>(repetition: &MacroRepetition, buf: &mut W) -> (r: Result<
    (),
    SinkFailure,
>)
    ensures
        rendered(old(buf)@, final(buf)@, repetition_text(*repetition), r),
    decreases repetition, 0nat,
{
    let ghost group = seq!['('] + elements_text(repetition.elements@) + seq![')'];
    let ghost comma = comma_text(repetition.comma);
    let ghost total = repetition_text(*repetition);
    proof {
        reveal_strlit("$");
        assert("$"@ =~= seq!['$']);
        lemma_first_write(buf@, "$"@, total);
    }
    buf.write_str("$")?;
    proof {
        lemma_step_render(old(buf)@, buf@, seq!['$'], group, total);
    }
    cwrite_elements_wrapped(&repetition.elements, buf, '(', ')')?;
    if repetition.comma {
        proof {
            lemma_step_write(old(buf)@, buf@, seq!['$'] + group, seq![','], total);
        }
        buf.write_char(',')?;
    }
    proof {
        assert(seq!['$'] + group + comma =~= if repetition.comma {
            seq!['$'] + group + seq![',']
        } else {
            seq!['$'] + group
        });
        lemma_step_render(
            old(buf)@,
            buf@,
            seq!['$'] + group + comma,
            repetition.operator.text(),
            total,
        );
    }
    repetition.operator.cwrite(buf)
}

impl CairoWrite for MacroElement {
    open spec fn text(&self) -> Seq<char> {
        element_text(*self)
    }

    fn cwrite<W: Sink>(&self, buf: &mut W) -> (r: Result<(), SinkFailure>) {
        cwrite_element(self, buf)
    }
}

impl CairoWrite for WrappedMacro {
    open spec fn text(&self) -> Seq<char> {
        wrapped_text(*self)
    }

    fn cwrite<W: Sink>(&self, buf: &mut W) -> (r: Result<(), SinkFailure>) {
        cwrite_wrapped(self, buf)
    }
}

impl CairoWrite for MacroRepetition {
    open spec fn text(&self) -> Seq<char> {
        repetition_text(*self)
    }

    fn cwrite<W: Sink>(&self, buf: &mut W) -> (r: Result<(), SinkFailure>) {
        cwrite_repetition(self, buf)
    }
}

/// The text of elements is what the rule for concatenated sequences gives for
/// them.
pub proof fn lemma_elements_text_is_concatenated(elements: Seq<MacroElement>)
    ensures
        elements_text(elements) == concat_text(texts(elements)),
{
    lemma_elements_text(elements);
    assert(texts(elements) =~= element_texts(elements));
}

impl CairoWrite for MacroRule {
    open spec fn text(&self) -> Seq<char> {
        self.lhs.text() + seq![' ', '=', '>', ' '] + (seq!['{'] + elements_text(self.rhs@) + seq![
            '}',
        ]) + seq![';']
    }

    fn cwrite<W: Sink>(&self, buf: &mut W) -> (r: Result<(), SinkFailure>) {
        let ghost arrow = seq![' ', '=', '>', ' '];
        let ghost body = seq!['{'] + elements_text(self.rhs@) + seq!['}'];
        let ghost total = self.text();
        proof {
            reveal_strlit(" => ");
            assert(" => "@ =~= arrow);
            lemma_first_render(buf@, self.lhs.text(), total);
        }
        self.lhs.cwrite(buf)?;
        proof {
            lemma_step_write(old(buf)@, buf@, self.lhs.text(), arrow, total);
        }
        buf.write_str(" => ")?;
        proof {
            lemma_step_render(old(buf)@, buf@, self.lhs.text() + arrow, body, total);
        }
        cwrite_elements_wrapped(&self.rhs, buf, '{', '}')?;
        proof {
            lemma_step_write(old(buf)@, buf@, self.lhs.text() + arrow + body, seq![';'], total);
        }
        buf.write_char(';')
    }
}

impl CairoWrite for MacroDeclarationItem {
    open spec fn text(&self) -> Seq<char> {
        self.attributes@ + self.visibility@ + "macro "@ + self.name@ + " {\n"@ + block_text(
            texts(self.rules@),
            seq!['\n'],
        ) + "\n}"@
    }

    fn cwrite<W: Sink>(&self, buf: &mut W) -> (r: Result<(), SinkFailure>) {
        let ghost total = self.text();
        let ghost rules = block_text(texts(self.rules@), seq!['\n']);
        proof {
            lemma_first_render(buf@, self.attributes@, total);
        }
        self.attributes.cwrite(buf)?;
        proof {
            lemma_step_render(old(buf)@, buf@, self.attributes@, self.visibility@, total);
        }
        self.visibility.cwrite(buf)?;
        let ghost acc = self.attributes@ + self.visibility@;
        proof {
            lemma_step_write(old(buf)@, buf@, acc, "macro "@, total);
        }
        buf.write_str("macro ")?;
        proof {
            lemma_step_render(old(buf)@, buf@, acc + "macro "@, self.name@, total);
        }
        self.name.cwrite(buf)?;
        proof {
            lemma_step_write(old(buf)@, buf@, acc + "macro "@ + self.name@, " {\n"@, total);
        }
        buf.write_str(" {\n")?;
        proof {
            lemma_step_render(
                old(buf)@,
                buf@,
                acc + "macro "@ + self.name@ + " {\n"@,
                rules,
                total,
            );
        }
        self.rules.cwrite_block(buf)?;
        proof {
            lemma_step_write(
                old(buf)@,
                buf@,
                acc + "macro "@ + self.name@ + " {\n"@ + rules,
                "\n}"@,
                total,
            );
        }
        buf.write_str("\n}")
    }
}

} // verus!

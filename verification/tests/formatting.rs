use cairo_writer::{
    Affix, Affixes, AffixesOps, CairoWrite, Delimited, FormatOp, Formatted, FormattedSeq, Prefix,
    SeqFormatter, SinkFailure, StringSink, Suffix, Token, ValueOrTuple,
};
use std::borrow::Cow;

fn output<F: Fn(&mut StringSink) -> Result<(), SinkFailure>>(f: F) -> String {
    let mut sink = StringSink::new();
    f(&mut sink).unwrap();
    sink.into_string()
}

fn word(s: &str) -> Token<'_> {
    Token::Str(Cow::Borrowed(s))
}

#[test]
fn tokens_come_from_characters_and_strings() {
    assert!(matches!(Token::from('c'), Token::Char('c')));
    assert!(matches!(Token::from("s"), Token::Str(Cow::Borrowed("s"))));
    match Token::from(String::from("o")) {
        Token::Str(Cow::Owned(s)) => assert_eq!(s, "o"),
        _ => panic!("an owned string becomes an owned token"),
    }
}

#[test]
fn a_prefix_stands_before_the_value() {
    let value = "v";
    assert_eq!(output(|buf| Prefix(Token::Char('&')).format(&value, buf)), "&v");
    assert_eq!(Prefix(word("ref ")).render_to_string(), "ref ");
}

#[test]
fn a_suffix_stands_after_the_value() {
    let value = "v";
    assert_eq!(output(|buf| Suffix(Token::Char(';')).format(&value, buf)), "v;");
    assert_eq!(Suffix(word("?;")).render_to_string(), "?;");
}

#[test]
fn an_affix_stands_on_both_sides() {
    let value = "v";
    let affix = Affix { prefix: Token::Char('('), suffix: word(")?") };
    assert_eq!(output(|buf| affix.format(&value, buf)), "(v)?");
}

#[test]
fn a_token_renders_as_its_text() {
    assert_eq!(Token::Char('x').render_to_string(), "x");
    assert_eq!(word("text").render_to_string(), "text");
    assert_eq!(word("té").size_hint(), 3);
}

#[test]
fn affixes_nest_in_the_order_of_attachment() {
    let mut affixes = Affixes::new();
    affixes.wrap('(', ')');
    affixes.wrap('[', ']');
    let value = "value";
    assert_eq!(output(|buf| affixes.format(&value, buf)), "[(value)]");
    assert_eq!(output(|buf| affixes.format_prefixes(buf)), "[(");
    assert_eq!(output(|buf| affixes.format_suffixes(buf)), ")]");
    assert_eq!(output(|buf| FormatOp::format(&affixes, &value, buf)), "[(value)]");
}

#[test]
fn affixes_take_anything_that_becomes_a_token() {
    let affixes = Affixes::default()
        .prefixed('a')
        .prefixed("b")
        .prefixed(String::from("c"))
        .suffixed('x')
        .suffixed("y")
        .wrapped("<", String::from(">"))
        .enclosed('{');
    let value = "v";
    assert_eq!(output(|buf| affixes.format(&value, buf)), "{<cbavxy>}");
}

#[test]
fn affixes_attached_in_place() {
    let mut affixes = Affixes::new();
    affixes.prefix('1');
    affixes.suffix('2');
    affixes.prefix_token(Token::Char('3'));
    affixes.suffix_token(Token::Char('4'));
    affixes.enclose('<');
    let value = "v";
    assert_eq!(output(|buf| affixes.format(&value, buf)), "<31v24>");
}

#[test]
fn a_formatted_value_renders_through_its_operation() {
    let value = "v";
    let formatted = Formatted::new(&value, Prefix(Token::Char('*')));
    assert_eq!(formatted.render_to_string(), "*v");
    let other = Affixes::new().enclosed('(').formatted(&value);
    assert_eq!(other.render_to_string(), "(v)");
    assert_eq!(other.size_hint(), 3);
}

#[test]
fn a_formatted_sequence_writes_all_or_one() {
    let items = ["a", "b", "c"];
    let sequence = FormattedSeq::new(&items, Suffix(Token::Char(';')));
    assert_eq!(sequence.size(), 3);
    assert_eq!(sequence.elements(), &["a", "b", "c"]);
    assert_eq!(output(|buf| sequence.fmt_all(buf)), "a;b;c;");
    assert_eq!(output(|buf| sequence.fmt_index(buf, 1)), "b;");
    assert_eq!(output(|buf| sequence.op().format(&"z", buf)), "z;");
}

#[test]
fn a_walk_through_a_formatted_sequence() {
    let items = ["a", "b"];
    let sequence = FormattedSeq::new(&items, Prefix(Token::Char('-')));
    let mut walk = sequence.iter();
    let mut sink = StringSink::new();
    assert_eq!(walk.remaining(), 2);
    assert_eq!(walk.next(&mut sink), Some(Ok(())));
    assert_eq!(walk.remaining(), 1);
    assert_eq!(walk.next(&mut sink), Some(Ok(())));
    assert_eq!(walk.remaining(), 0);
    assert_eq!(walk.next(&mut sink), None);
    assert_eq!(sink.as_str(), "-a-b");
}

#[test]
fn delimited_has_the_delimiter_between_neighbours_only() {
    let items = ["a", "b", "c"];
    let delimited = Delimited::new(FormattedSeq::new(&items, Affixes::new()), word(", "));
    assert_eq!(delimited.render_to_string(), "a, b, c");
    let one = ["a"];
    let delimited = Delimited::new(FormattedSeq::new(&one, Affixes::new()), word(", "));
    assert_eq!(delimited.render_to_string(), "a");
    let none: [&str; 0] = [];
    let delimited = Delimited::new(FormattedSeq::new(&none, Affixes::new()), word(", "));
    assert_eq!(delimited.render_to_string(), "");
}

#[test]
fn delimited_formats_each_element() {
    let items = ["a", "b"];
    let sequence = FormattedSeq::new(&items, Affixes::new().enclosed('<'));
    let delimited = Delimited::new(sequence, Token::Char('|'));
    assert_eq!(delimited.render_to_string(), "<a>|<b>");
}

#[test]
fn value_or_tuple_of_nothing_is_the_unit() {
    let none: [&str; 0] = [];
    let sequence = FormattedSeq::new(&none, Affixes::new());
    assert_eq!(ValueOrTuple(&sequence).render_to_string(), "()");
}

#[test]
fn value_or_tuple_of_one_is_the_value() {
    let one = ["x"];
    let sequence = FormattedSeq::new(&one, Affixes::new());
    assert_eq!(ValueOrTuple(&sequence).render_to_string(), "x");
}

#[test]
fn value_or_tuple_of_more_is_a_tuple() {
    let two = ["x", "y"];
    let sequence = FormattedSeq::new(&two, Affixes::new());
    assert_eq!(ValueOrTuple(&sequence).render_to_string(), "(x,y)");
    let three = ["x", "y", "z"];
    let sequence = FormattedSeq::new(&three, Prefix(Token::Char('@')));
    assert_eq!(ValueOrTuple(&sequence).render_to_string(), "(@x,@y,@z)");
}

#[test]
fn a_formatted_value_fails_when_it_does_not_fit() {
    let value = "value";
    let formatted = Affixes::new().enclosed('(').formatted(&value);
    let mut sink = StringSink::with_room(6);
    assert_eq!(formatted.cwrite(&mut sink), Err(SinkFailure));
    assert_eq!(sink.as_str(), "(value");
}

use cairo_writer::{
    get_enclosers, AppendWriteOps, CSliceWriter, CWrite, CWriteSlice, CWriter, CairoWrite,
    ElementOps, ElementWriter, MaybeTokenTrait, Sink, SinkFailure, SliceOps, SliceWriter,
    StringSink, Token, TokenTrait, TokensTrait,
};
use std::borrow::Cow;

fn written<F: Fn(&mut StringSink) -> Result<(), SinkFailure>>(f: F) -> String {
    let mut sink = StringSink::new();
    f(&mut sink).unwrap();
    sink.into_string()
}

#[test]
fn a_token_writes_its_character_or_its_string() {
    assert_eq!(written(|buf| Token::Char('€').write_token(buf)), "€");
    assert_eq!(written(|buf| Token::Str(Cow::Borrowed("borrowed")).write_token(buf)), "borrowed");
    assert_eq!(written(|buf| Token::Str(Cow::Owned("owned".to_string())).write_token(buf)), "owned");
    assert_eq!(written(|buf| Token::Str(Cow::Borrowed("")).write_token(buf)), "");
}

#[test]
fn a_token_is_written_whole_or_not_at_all() {
    let mut sink = StringSink::with_room(3);
    assert_eq!(Token::Str(Cow::Borrowed("abcd")).write_token(&mut sink), Err(SinkFailure));
    assert_eq!(sink.as_str(), "");
    assert_eq!(Token::Str(Cow::Borrowed("abc")).write_token(&mut sink), Ok(()));
    assert_eq!(Token::Char('d').write_token(&mut sink), Err(SinkFailure));
    assert_eq!(sink.as_str(), "abc");
}

#[test]
fn values_become_tokens() {
    assert!(matches!('c'.to_token(), Token::Char('c')));
    assert!(matches!("s".to_token(), Token::Str(Cow::Borrowed("s"))));
    match String::from("o").to_token() {
        Token::Str(Cow::Owned(s)) => assert_eq!(s, "o"),
        _ => panic!("an owned string becomes an owned token"),
    }
}

#[test]
fn values_become_a_token_or_none() {
    assert!(().maybe_token().is_none());
    assert!(matches!('c'.maybe_token(), Some(Token::Char('c'))));
    assert!(matches!("s".maybe_token(), Some(Token::Str(Cow::Borrowed("s")))));
    match String::from("o").maybe_token() {
        Some(Token::Str(Cow::Owned(s))) => assert_eq!(s, "o"),
        _ => panic!("an owned string becomes an owned token"),
    }
}

#[test]
fn tokens_are_written_in_order_and_in_reverse() {
    let tokens = [Token::Char('a'), Token::Str(Cow::Borrowed("bc")), Token::Char('d')];
    assert_eq!(written(|buf| tokens.write_tokens(buf)), "abcd");
    assert_eq!(written(|buf| tokens.write_tokens_rev(buf)), "dbca");
    let none: [Token; 0] = [];
    assert_eq!(written(|buf| none.write_tokens(buf)), "");
    assert_eq!(written(|buf| none.write_tokens_rev(buf)), "");
}

#[test]
fn enclosers_match_brackets_and_repeat_the_rest() {
    assert_eq!(get_enclosers('('), ('(', ')'));
    assert_eq!(get_enclosers('{'), ('{', '}'));
    assert_eq!(get_enclosers('['), ('[', ']'));
    assert_eq!(get_enclosers('<'), ('<', '>'));
    assert_eq!(get_enclosers('|'), ('|', '|'));
    assert_eq!(get_enclosers(')'), (')', ')'));
    assert_eq!(get_enclosers('"'), ('"', '"'));
}

#[test]
fn a_wrap_attached_later_surrounds_a_wrap_attached_earlier() {
    let value = "value";
    let writer = value.wrap('(', ')').wrapped('[', ']');
    assert_eq!(writer.to_string(), "[(value)]");
}

#[test]
fn prefixes_render_last_attached_first_and_suffixes_first_attached_first() {
    let value = "v";
    let writer = value.prefix('a').prefixed("b").prefixed(String::from("c")).suffixed('x').suffixed('y');
    assert_eq!(writer.to_string(), "cbavxy");
}

#[test]
fn more_affixes_than_fit_inline_keep_their_order() {
    let value = "v";
    let mut writer = ElementWriter::new_empty(&value);
    for c in ['1', '2', '3', '4', '5', '6'] {
        writer.prefix(c);
        writer.suffix(c);
    }
    assert_eq!(writer.to_string(), "654321v123456");
}

#[test]
fn enclose_wraps_in_the_matching_pair() {
    let value = "v";
    assert_eq!(value.enclose('(').to_string(), "(v)");
    assert_eq!(value.enclose('{').to_string(), "{v}");
    assert_eq!(value.enclose('[').to_string(), "[v]");
    assert_eq!(value.enclose('<').to_string(), "<v>");
    assert_eq!(value.enclose('|').to_string(), "|v|");
    assert_eq!(value.enclose('(').enclosed('[').to_string(), "[(v)]");
}

#[test]
fn a_single_prefix_or_suffix() {
    let value = String::from("v");
    assert_eq!(value.prefix("pre ").to_string(), "pre v");
    assert_eq!(value.suffix(';').to_string(), "v;");
    assert_eq!(value.wrap("<<", ">>").to_string(), "<<v>>");
}

#[test]
fn bytes_and_field_elements_start_a_chain_too() {
    let narrow: [u8; 31] = [0; 31];
    assert_eq!(narrow.enclose('(').to_string(), format!("(0x{})", "0".repeat(64)));
    let wide: [u8; 32] = [0x11; 32];
    assert_eq!(wide.suffix("_u256").to_string(), format!("0x{}_u256", "11".repeat(32)));
    let mut one: [u8; 32] = [0; 32];
    one[31] = 1;
    let felt = cairo_writer::FeltBytes(one);
    assert_eq!(felt.prefix('-').to_string(), format!("-0x{}1", "0".repeat(63)));
}

#[test]
fn building_a_writer_leaves_the_value_as_it_was() {
    let value = String::from("v");
    let wrapped = value.wrap('(', ')').to_string();
    assert_eq!(wrapped, "(v)");
    assert_eq!(value, "v");
    assert_eq!(value.render_to_string(), "v");
}

#[test]
fn element_ops_apply_prefixes_value_and_suffixes() {
    let mut ops = ElementOps::new();
    ops.wrap('(', ')');
    ops.enclose('[');
    ops.prefix("#");
    assert_eq!(written(|buf| ops.apply_prefixes(buf)), "#[(");
    assert_eq!(written(|buf| ops.apply_suffixes(buf)), ")]");
    assert_eq!(written(|buf| ops.apply(&"v", buf)), "#[(v)]");
    let none = ElementOps::default();
    assert_eq!(written(|buf| none.apply(&"v", buf)), "v");
}

#[test]
fn element_ops_in_an_element_writer() {
    let value = "v";
    let writer = ElementWriter::new(&value, ElementOps::new().enclosed('{'));
    assert_eq!(written(|buf| writer.apply(buf)), "{v}");
    assert_eq!(writer.render_to_string(), "{v}");
    assert_eq!(writer.size_hint(), 3);
}

#[test]
fn affixes_before_join_go_to_each_element_and_those_after_it_to_the_whole() {
    let items = vec!["a", "b", "c"];
    let writer = items.prefix('<').suffixed('>').join(", ").wrapped('[', ']');
    assert_eq!(writer.len(), 3);
    assert_eq!(writer.render_to_string(), "[<a>, <b>, <c>]");
}

#[test]
fn join_with_every_kind_of_delimiter() {
    let items = vec!["a", "b", "c"];
    assert_eq!(items.join(", ").render_to_string(), "a, b, c");
    assert_eq!(CWriteSlice::join(&items, '|').render_to_string(), "a|b|c");
    assert_eq!(CWriteSlice::join(&items, String::from(" and ")).render_to_string(), "a and b and c");
    assert_eq!(CWriteSlice::join(&items, ()).render_to_string(), "abc");
}

#[test]
fn a_joined_sequence_of_no_or_one_element_has_no_delimiter() {
    let none: Vec<&str> = vec![];
    assert_eq!(CWriteSlice::join(&none, ",").render_to_string(), "");
    assert_eq!(CWriteSlice::join(&none, ",").enclosed('{').render_to_string(), "{}");
    assert_eq!(CWriteSlice::join(&none, ",").len(), 0);
    let one = vec!["x"];
    assert_eq!(CWriteSlice::join(&one, ", ").render_to_string(), "x");
    assert_eq!(one.enclose('(').join(", ").enclosed('[').render_to_string(), "[(x)]");
}

#[test]
fn slice_ops_apply_to_any_sequence() {
    let ops = ElementOps::new().enclosed('(').join(';').prefixed("begin ").suffixed(" end");
    let items = ["a", "b"];
    assert_eq!(written(|buf| ops.apply(&items, buf)), "begin (a);(b) end");
    let none: [&str; 0] = [];
    assert_eq!(written(|buf| ops.apply(&none, buf)), "begin  end");
}

#[test]
fn slice_ops_made_from_their_parts() {
    let items = vec!["a", "b"];
    let ops = SliceOps::new(ElementOps::new().prefixed('-'), ElementOps::new().enclosed('{'), '\n');
    assert_eq!(written(|buf| ops.apply(&items, buf)), "{-a\n-b}");
    let writer = SliceWriter::new(&items, ops);
    assert_eq!(written(|buf| writer.apply(buf)), "{-a\n-b}");
    let plain = SliceOps::default();
    assert_eq!(written(|buf| plain.apply(&items, buf)), "ab");
}

#[test]
fn a_joined_sequence_fails_when_it_does_not_fit() {
    let items = vec!["ab", "cd"];
    let writer = CWriteSlice::join(&items, ", ").enclosed('[');
    let mut sink = StringSink::with_room(7);
    assert_eq!(writer.apply(&mut sink), Err(SinkFailure));
    assert_eq!(sink.as_str(), "[ab, cd");
    let mut enough = StringSink::with_room(8);
    assert_eq!(writer.apply(&mut enough), Ok(()));
    assert_eq!(enough.as_str(), "[ab, cd]");
    let mut sink = StringSink::with_room(1);
    assert_eq!(sink.write_str("ab"), Err(SinkFailure));
}

#[test]
fn a_writer_that_owns_its_value() {
    let writer = CWriter::new(String::from("v")).enclosed('(').suffixed(';');
    assert_eq!(written(|buf| writer.apply(buf)), "(v);");
    assert_eq!(writer.render_to_string(), "(v);");
    assert_eq!(CWriter::new("bare").render_to_string(), "bare");
    let mut in_place = CWriter::new(String::from("v"));
    in_place.prefix("a");
    in_place.prefix("b");
    in_place.suffix('c');
    assert_eq!(in_place.render_to_string(), "bavc");
}

#[test]
fn a_writer_of_a_slice_with_affixes_for_each_element() {
    let items = ["a", "b", "c"];
    let writer = CSliceWriter::new(&items, ElementOps::new().enclosed('<'), ", ");
    assert_eq!(written(|buf| writer.apply(buf)), "<a>, <b>, <c>");
    let bare = CSliceWriter::new(&items, ElementOps::new(), ());
    assert_eq!(bare.render_to_string(), "abc");
    let none: [&str; 0] = [];
    assert_eq!(CSliceWriter::new(&none, ElementOps::new().enclosed('<'), ", ").render_to_string(), "");
}

#[test]
fn writers_nest() {
    let value = "v";
    let inner = value.enclose('(');
    let outer = ElementWriter::new(&inner, ElementOps::new().enclosed('['));
    assert_eq!(outer.render_to_string(), "[(v)]");
    assert_eq!(outer.size_hint(), 5);
    let rows = vec![vec!["a", "b"], vec!["c"]];
    let lines: Vec<_> = rows.iter().map(|row| CWriteSlice::join(row, ", ").enclosed('(')).collect();
    assert_eq!(CWriteSlice::join(&lines, "; ").enclosed('[').render_to_string(), "[(a, b); (c)]");
}

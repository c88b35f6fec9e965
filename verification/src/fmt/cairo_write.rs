//! Values that render themselves as source text, and the fixed rules by which
//! a value or a sequence of values is set between literal affixes.
use crate::fmt::sizer::Sizer;
use crate::sink::{
    emitted, lemma_emitted_nothing, lemma_first_render, lemma_first_write, lemma_step_render,
    lemma_step_write, lemma_write_is_render, rendered, string_limit, Sink, SinkFailure, SinkState,
    StringSink,
};
use crate::text::{
    concat_text, is_prefix, join_text, lemma_concat_step, lemma_join_none, lemma_join_step,
    lemma_prefix_transitive, lemma_utf8_len_bounds, utf8_len, wrap_each,
};
use crate::utils::Slice;
use starknet_types_core::felt::Felt;
use vstd::prelude::*;

verus! {

/// A value that can write its exact source text into a sink.
pub trait CairoWrite {
    /// The source text of the value.
    spec fn text(&self) -> Seq<char>;

    /// Writes the value's text into `buf`.
    fn cwrite<W: Sink>(&self, buf: &mut W) -> (r: Result<(), SinkFailure>)
        ensures
            rendered(old(buf)@, final(buf)@, self.text(), r),
    ;

    /// The number of bytes of the value's text, found by rendering it into a
    /// [`Sizer`].
    fn size_hint(&self) -> (n: usize)
        requires
            utf8_len(self.text()) <= usize::MAX,
        ensures
            n == utf8_len(self.text()),
    {
        let mut sizer = Sizer::new();
        let _ = self.cwrite(&mut sizer);
        sizer.size()
    }

    /// The value's text in a new string.
    fn render_to_string(&self) -> (s: String)
        requires
            utf8_len(self.text()) <= string_limit(),
        ensures
            s@ == self.text(),
    {
        let mut sink = StringSink::new();
        let _ = self.cwrite(&mut sink);
        sink.into_string()
    }

    /// The value followed by `suffix`.
    fn cwrite_suffixed_str<W: Sink>(&self, buf: &mut W, suffix: &str) -> (r: Result<
        (),
        SinkFailure,
    >)
        ensures
            rendered(old(buf)@, final(buf)@, self.text() + suffix@, r),
    {
        proof {
            lemma_first_render(buf@, self.text(), self.text() + suffix@);
        }
        self.cwrite(buf)?;
        proof {
            lemma_step_write(old(buf)@, buf@, self.text(), suffix@, self.text() + suffix@);
        }
        buf.write_str(suffix)
    }

    /// The character `prefix` followed by the value.
    fn cwrite_prefixed<W: Sink>(&self, buf: &mut W, prefix: char) -> (r: Result<(), SinkFailure>)
        ensures
            rendered(old(buf)@, final(buf)@, seq![prefix] + self.text(), r),
    {
        proof {
            lemma_first_write(buf@, seq![prefix], seq![prefix] + self.text());
        }
        buf.write_char(prefix)?;
        proof {
            lemma_step_render(
                old(buf)@,
                buf@,
                seq![prefix],
                self.text(),
                seq![prefix] + self.text(),
            );
        }
        self.cwrite(buf)
    }

    /// `prefix` followed by the value.
    fn cwrite_prefixed_str<W: Sink>(&self, buf: &mut W, prefix: &str) -> (r: Result<
        (),
        SinkFailure,
    >)
        ensures
            rendered(old(buf)@, final(buf)@, prefix@ + self.text(), r),
    {
        proof {
            lemma_first_write(buf@, prefix@, prefix@ + self.text());
        }
        buf.write_str(prefix)?;
        proof {
            lemma_step_render(old(buf)@, buf@, prefix@, self.text(), prefix@ + self.text());
        }
        self.cwrite(buf)
    }

    /// The value followed by the character `suffix`.
    fn cwrite_suffixed<W: Sink>(&self, buf: &mut W, suffix: char) -> (r: Result<(), SinkFailure>)
        ensures
            rendered(old(buf)@, final(buf)@, self.text() + seq![suffix], r),
    {
        proof {
            lemma_first_render(buf@, self.text(), self.text() + seq![suffix]);
        }
        self.cwrite(buf)?;
        proof {
            lemma_step_write(
                old(buf)@,
                buf@,
                self.text(),
                seq![suffix],
                self.text() + seq![suffix],
            );
        }
        buf.write_char(suffix)
    }

    /// The value between the characters `prefix` and `suffix`.
    fn cwrite_wrapped<W: Sink>(&self, buf: &mut W, prefix: char, suffix: char) -> (r: Result<
        (),
        SinkFailure,
    >)
        ensures
            rendered(old(buf)@, final(buf)@, seq![prefix] + self.text() + seq![suffix], r),
    {
        let ghost total = seq![prefix] + self.text() + seq![suffix];
        proof {
            lemma_first_write(buf@, seq![prefix], total);
        }
        buf.write_char(prefix)?;
        proof {
            lemma_step_render(old(buf)@, buf@, seq![prefix], self.text(), total);
        }
        self.cwrite(buf)?;
        proof {
            lemma_step_write(old(buf)@, buf@, seq![prefix] + self.text(), seq![suffix], total);
        }
        buf.write_char(suffix)
    }

    /// The value between `prefix` and `suffix`.
    fn cwrite_wrapped_str<W: Sink>(&self, buf: &mut W, prefix: &str, suffix: &str) -> (r: Result<
        (),
        SinkFailure,
    >)
        ensures
            rendered(old(buf)@, final(buf)@, prefix@ + self.text() + suffix@, r),
    {
        let ghost total = prefix@ + self.text() + suffix@;
        proof {
            lemma_first_write(buf@, prefix@, total);
        }
        buf.write_str(prefix)?;
        proof {
            lemma_step_render(old(buf)@, buf@, prefix@, self.text(), total);
        }
        self.cwrite(buf)?;
        proof {
            lemma_step_write(old(buf)@, buf@, prefix@ + self.text(), suffix@, total);
        }
        buf.write_str(suffix)
    }

    /// The value between parentheses.
    fn cwrite_parenthesized<W: Sink>(&self, buf: &mut W) -> (r: Result<(), SinkFailure>)
        ensures
            rendered(old(buf)@, final(buf)@, seq!['('] + self.text() + seq![')'], r),
    {
        self.cwrite_wrapped(buf, '(', ')')
    }

    /// The value between braces.
    fn cwrite_braced<W: Sink>(&self, buf: &mut W) -> (r: Result<(), SinkFailure>)
        ensures
            rendered(old(buf)@, final(buf)@, seq!['{'] + self.text() + seq!['}'], r),
    {
        self.cwrite_wrapped(buf, '{', '}')
    }

    /// The value between square brackets.
    fn cwrite_bracketed<W: Sink>(&self, buf: &mut W) -> (r: Result<(), SinkFailure>)
        ensures
            rendered(old(buf)@, final(buf)@, seq!['['] + self.text() + seq![']'], r),
    {
        self.cwrite_wrapped(buf, '[', ']')
    }
}

impl CairoWrite for String {
    open spec fn text(&self) -> Seq<char> {
        self@
    }

    fn cwrite<W: Sink>(&self, buf: &mut W) -> (r: Result<(), SinkFailure>) {
        proof {
            lemma_write_is_render(buf@, self@);
        }
        buf.write_str(self.as_str())
    }
}

impl CairoWrite for &str {
    open spec fn text(&self) -> Seq<char> {
        self@
    }

    fn cwrite<W: Sink>(&self, buf: &mut W) -> (r: Result<(), SinkFailure>) {
        proof {
            lemma_write_is_render(buf@, self@);
        }
        buf.write_str(self)
    }
}

/// The lowercase hexadecimal digit of a value below sixteen.
pub open spec fn hex_digit(n: int) -> char {
    if n == 0 {
        '0'
    } else if n == 1 {
        '1'
    } else if n == 2 {
        '2'
    } else if n == 3 {
        '3'
    } else if n == 4 {
        '4'
    } else if n == 5 {
        '5'
    } else if n == 6 {
        '6'
    } else if n == 7 {
        '7'
    } else if n == 8 {
        '8'
    } else if n == 9 {
        '9'
    } else if n == 10 {
        'a'
    } else if n == 11 {
        'b'
    } else if n == 12 {
        'c'
    } else if n == 13 {
        'd'
    } else if n == 14 {
        'e'
    } else {
        'f'
    }
}

/// The two hexadecimal digits of a byte, the high one first.
pub open spec fn hex_byte(b: u8) -> Seq<char> {
    seq![hex_digit(b as int / 16), hex_digit(b as int % 16)]
}

/// Two hexadecimal digits for each byte, in the order of the bytes.
pub open spec fn hex_text(bytes: Seq<u8>) -> Seq<char> {
    concat_text(bytes.map_values(|b: u8| hex_byte(b)))
}

/// The hexadecimal text of `n` bytes has `2 * n` digits.
pub proof fn lemma_hex_text_len(bytes: Seq<u8>)
    ensures
        hex_text(bytes).len() == 2 * bytes.len(),
    decreases bytes.len(),
{
    let parts = bytes.map_values(|b: u8| hex_byte(b));
    if bytes.len() == 0 {
    } else if bytes.len() == 1 {
    } else {
        lemma_hex_text_len(bytes.drop_last());
        assert(parts.drop_last() =~= bytes.drop_last().map_values(|b: u8| hex_byte(b)));
    }
}

/// Digit `i` of the hexadecimal text is a digit of byte `i / 2`: its high
/// digit where `i` is even, its low digit where `i` is odd.
pub proof fn lemma_hex_text_index(bytes: Seq<u8>, i: int)
    requires
        0 <= i < 2 * bytes.len(),
    ensures
        hex_text(bytes).len() == 2 * bytes.len(),
        hex_text(bytes)[i] == if i % 2 == 0 {
            hex_digit(bytes[i / 2] as int / 16)
        } else {
            hex_digit(bytes[i / 2] as int % 16)
        },
    decreases bytes.len(),
{
    let parts = bytes.map_values(|b: u8| hex_byte(b));
    lemma_hex_text_len(bytes);
    if bytes.len() == 1 {
    } else {
        lemma_hex_text_len(bytes.drop_last());
        assert(parts.drop_last() =~= bytes.drop_last().map_values(|b: u8| hex_byte(b)));
        if i < 2 * (bytes.len() - 1) {
            lemma_hex_text_index(bytes.drop_last(), i);
        }
    }
}

/// The lowercase hexadecimal digit of a value below sixteen.
fn hex_digit_char(n: u8) -> (c: char)
    requires
        n < 16,
    ensures
        c == hex_digit(n as int),
{
    match n {
        0 => '0',
        1 => '1',
        2 => '2',
        3 => '3',
        4 => '4',
        5 => '5',
        6 => '6',
        7 => '7',
        8 => '8',
        9 => '9',
        10 => 'a',
        11 => 'b',
        12 => 'c',
        13 => 'd',
        14 => 'e',
        _ => 'f',
    }
}

/// Writes two lowercase hexadecimal digits for each byte.
pub fn cwrite_hex<W: Sink>(bytes: &[u8], buf: &mut W) -> (r: Result<(), SinkFailure>)
    ensures
        rendered(old(buf)@, final(buf)@, hex_text(bytes@), r),
{
    let ghost parts = bytes@.map_values(|b: u8| hex_byte(b));
    let ghost total = concat_text(parts);
    proof {
        lemma_emitted_nothing(buf@);
        lemma_join_none(parts, Seq::empty());
    }
    let mut i: usize = 0;
    while i < bytes.len()
        invariant
            i <= bytes.len(),
            parts == bytes@.map_values(|b: u8| hex_byte(b)),
            total == concat_text(parts),
            emitted(old(buf)@, buf@, concat_text(parts.take(i as int))),
        decreases bytes.len() - i,
    {
        let byte = bytes[i];
        let high = hex_digit_char(byte / 16);
        let low = hex_digit_char(byte % 16);
        let ghost acc = concat_text(parts.take(i as int));
        proof {
            lemma_concat_step(parts, i as int);
            assert(parts[i as int] =~= seq![high] + seq![low]);
            assert(acc + parts[i as int] =~= acc + seq![high] + seq![low]);
            assert(is_prefix(acc + seq![high], acc + parts[i as int]));
            lemma_prefix_transitive(acc + seq![high], acc + parts[i as int], total);
            lemma_step_write(old(buf)@, buf@, acc, seq![high], total);
        }
        buf.write_char(high)?;
        proof {
            lemma_step_write(old(buf)@, buf@, acc + seq![high], seq![low], total);
        }
        buf.write_char(low)?;
        i += 1;
    }
    proof {
        assert(parts.take(i as int) =~= parts);
    }
    Ok(())
}

/// Thirty-two bytes, the most significant first: `0x` and sixty-four
/// hexadecimal digits.
impl CairoWrite for [u8; 32] {
    open spec fn text(&self) -> Seq<char> {
        seq!['0', 'x'] + hex_text(self@)
    }

    fn cwrite<W: Sink>(&self, buf: &mut W) -> (r: Result<(), SinkFailure>) {
        proof {
            reveal_strlit("0x");
            assert("0x"@ =~= seq!['0', 'x']);
            lemma_first_write(buf@, "0x"@, self.text());
        }
        buf.write_str("0x")?;
        proof {
            lemma_step_render(old(buf)@, buf@, "0x"@, hex_text(self@), self.text());
        }
        cwrite_hex(self.as_slice(), buf)
    }
}

/// Thirty-one bytes, the most significant first: `0x00` and sixty-two
/// hexadecimal digits, as wide as the text of thirty-two bytes.
impl CairoWrite for [u8; 31] {
    open spec fn text(&self) -> Seq<char> {
        seq!['0', 'x', '0', '0'] + hex_text(self@)
    }

    fn cwrite<W: Sink>(&self, buf: &mut W) -> (r: Result<(), SinkFailure>) {
        proof {
            reveal_strlit("0x00");
            assert("0x00"@ =~= seq!['0', 'x', '0', '0']);
            lemma_first_write(buf@, "0x00"@, self.text());
        }
        buf.write_str("0x00")?;
        proof {
            lemma_step_render(old(buf)@, buf@, "0x00"@, hex_text(self@), self.text());
        }
        cwrite_hex(self.as_slice(), buf)
    }
}

/// The texts of thirty-two bytes and of thirty-one bytes are both sixty-six
/// characters wide, whatever the bytes.
pub proof fn lemma_fixed_width_hex(wide: [u8; 32], narrow: [u8; 31])
    ensures
        wide.text().len() == 66,
        narrow.text().len() == 66,
{
    lemma_hex_text_len(wide@);
    lemma_hex_text_len(narrow@);
}

/// The text that `Felt::to_fixed_hex_string` gives for the field element made
/// by `Felt::from_bytes_be` of thirty-two bytes.
pub uninterp spec fn felt_fixed_hex(be_bytes: Seq<u8>) -> Seq<char>;

/// `Felt::from_bytes_be` followed by `Felt::to_fixed_hex_string`, of
/// starknet-types-core: the canonical text of a field element, which is always
/// sixty-six characters long.
#[verifier::external_body]
fn felt_fixed_hex_string(be_bytes: &[u8; 32]) -> (s: String)
    ensures
        s@ == felt_fixed_hex(be_bytes@),
        s@.len() == 66,
{
    Felt::from_bytes_be(be_bytes).to_fixed_hex_string()
}

/// A field element, held as its thirty-two bytes with the most significant
/// first.
pub struct FeltBytes(pub [u8; 32]);

impl FeltBytes {
    /// The canonical fixed-width hexadecimal text of the field element:
    /// sixty-six characters, so at most four times as many bytes.
    pub fn fixed_hex(&self) -> (s: String)
        ensures
            s@ == self.text(),
            s@.len() == 66,
            utf8_len(self.text()) <= 264,
    {
        let s = felt_fixed_hex_string(&self.0);
        proof {
            lemma_utf8_len_bounds(s@);
        }
        s
    }
}

impl CairoWrite for FeltBytes {
    open spec fn text(&self) -> Seq<char> {
        felt_fixed_hex(self.0@)
    }

    fn cwrite<W: Sink>(&self, buf: &mut W) -> (r: Result<(), SinkFailure>) {
        self.fixed_hex().cwrite(buf)
    }
}

/// The texts of the elements, in order.
pub open spec fn texts<E: CairoWrite>(elements: Seq<E>) -> Seq<Seq<char>> {
    elements.map_values(|e: E| e.text())
}

/// The parts, each followed by `terminator`.
pub open spec fn terminated_text(parts: Seq<Seq<char>>, terminator: Seq<char>) -> Seq<char> {
    concat_text(wrap_each(parts, Seq::empty(), terminator))
}

/// The parts separated by a comma and a space.
pub open spec fn csv_text(parts: Seq<Seq<char>>) -> Seq<char> {
    join_text(parts, seq![',', ' '])
}

/// A block: nothing for no part, else a newline and each part followed by
/// `terminator`.
pub open spec fn block_text(parts: Seq<Seq<char>>, terminator: Seq<char>) -> Seq<char> {
    if parts.len() == 0 {
        Seq::empty()
    } else {
        seq!['\n'] + terminated_text(parts, terminator)
    }
}

/// A tuple: `()` for no part, `(x,)` for one, and the parts separated by a
/// comma and a space between parentheses for more.
pub open spec fn tuple_text(parts: Seq<Seq<char>>) -> Seq<char> {
    if parts.len() == 0 {
        seq!['(', ')']
    } else if parts.len() == 1 {
        seq!['('] + parts[0] + seq![','] + seq![')']
    } else {
        seq!['('] + csv_text(parts) + seq![')']
    }
}

/// A sequence of renderable values, rendered by fixed rules.
pub trait CairoWriteSlice where Self: Slice, Self::Element: CairoWrite {
    /// The elements with `delimiter` between each two neighbours.
    fn cwrite_join<W: Sink>(&self, buf: &mut W, delimiter: &str) -> (r: Result<(), SinkFailure>)
        ensures
            rendered(
                old(buf)@,
                final(buf)@,
                join_text(texts(self.spec_elements()), delimiter@),
                r,
            ),
    {
        let elements = self.elements();
        let ghost parts = texts(elements@);
        let ghost total = join_text(parts, delimiter@);
        proof {
            lemma_emitted_nothing(buf@);
            lemma_join_none(parts, delimiter@);
        }
        let mut i: usize = 0;
        while i < elements.len()
            invariant
                i <= elements.len(),
                elements@ == self.spec_elements(),
                parts == texts(elements@),
                total == join_text(parts, delimiter@),
                emitted(old(buf)@, buf@, join_text(parts.take(i as int), delimiter@)),
            decreases elements.len() - i,
        {
            let ghost acc = join_text(parts.take(i as int), delimiter@);
            proof {
                lemma_join_step(parts, delimiter@, i as int);
            }
            if i > 0 {
                proof {
                    lemma_step_write(old(buf)@, buf@, acc, delimiter@, total);
                }
                buf.write_str(delimiter)?;
                proof {
                    lemma_step_render(old(buf)@, buf@, acc + delimiter@, parts[i as int], total);
                }
                elements[i].cwrite(buf)?;
            } else {
                proof {
                    lemma_step_render(old(buf)@, buf@, acc, parts[i as int], total);
                    assert(acc + parts[i as int] =~= parts[i as int]);
                }
                elements[i].cwrite(buf)?;
            }
            i += 1;
        }
        proof {
            assert(parts.take(i as int) =~= parts);
        }
        Ok(())
    }

    /// The elements with the character `delimiter` between each two neighbours.
    fn cwrite_delimited<W: Sink>(&self, buf: &mut W, delimiter: char) -> (r: Result<
        (),
        SinkFailure,
    >)
        ensures
            rendered(
                old(buf)@,
                final(buf)@,
                join_text(texts(self.spec_elements()), seq![delimiter]),
                r,
            ),
    {
        let elements = self.elements();
        let ghost parts = texts(elements@);
        let ghost total = join_text(parts, seq![delimiter]);
        proof {
            lemma_emitted_nothing(buf@);
            lemma_join_none(parts, seq![delimiter]);
        }
        let mut i: usize = 0;
        while i < elements.len()
            invariant
                i <= elements.len(),
                elements@ == self.spec_elements(),
                parts == texts(elements@),
                total == join_text(parts, seq![delimiter]),
                emitted(old(buf)@, buf@, join_text(parts.take(i as int), seq![delimiter])),
            decreases elements.len() - i,
        {
            let ghost acc = join_text(parts.take(i as int), seq![delimiter]);
            proof {
                lemma_join_step(parts, seq![delimiter], i as int);
            }
            if i > 0 {
                proof {
                    lemma_step_render(
                        old(buf)@,
                        buf@,
                        acc,
                        seq![delimiter] + parts[i as int],
                        total,
                    );
                    assert(acc + (seq![delimiter] + parts[i as int]) =~= acc + seq![delimiter]
                        + parts[i as int]);
                }
                elements[i].cwrite_prefixed(buf, delimiter)?;
            } else {
                proof {
                    lemma_step_render(old(buf)@, buf@, acc, parts[i as int], total);
                    assert(acc + parts[i as int] =~= parts[i as int]);
                }
                elements[i].cwrite(buf)?;
            }
            i += 1;
        }
        proof {
            assert(parts.take(i as int) =~= parts);
        }
        Ok(())
    }

    /// Each element followed by the character `terminator`.
    fn cwrite_terminated<W: Sink>(&self, buf: &mut W, terminator: char) -> (r: Result<
        (),
        SinkFailure,
    >)
        ensures
            rendered(
                old(buf)@,
                final(buf)@,
                terminated_text(texts(self.spec_elements()), seq![terminator]),
                r,
            ),
    {
        let elements = self.elements();
        let ghost parts = wrap_each(texts(elements@), Seq::empty(), seq![terminator]);
        let ghost total = concat_text(parts);
        proof {
            lemma_emitted_nothing(buf@);
            lemma_join_none(parts, Seq::empty());
        }
        let mut i: usize = 0;
        while i < elements.len()
            invariant
                i <= elements.len(),
                elements@ == self.spec_elements(),
                parts == wrap_each(texts(elements@), Seq::empty(), seq![terminator]),
                total == concat_text(parts),
                emitted(old(buf)@, buf@, concat_text(parts.take(i as int))),
            decreases elements.len() - i,
        {
            let ghost acc = concat_text(parts.take(i as int));
            proof {
                lemma_concat_step(parts, i as int);
                assert(parts[i as int] =~= elements[i as int].text() + seq![terminator]);
                lemma_step_render(old(buf)@, buf@, acc, parts[i as int], total);
            }
            elements[i].cwrite_suffixed(buf, terminator)?;
            i += 1;
        }
        proof {
            assert(parts.take(i as int) =~= parts);
        }
        Ok(())
    }

    /// Each element followed by `terminator`.
    fn cwrite_terminated_str<W: Sink>(&self, buf: &mut W, terminator: &str) -> (r: Result<
        (),
        SinkFailure,
    >)
        ensures
            rendered(
                old(buf)@,
                final(buf)@,
                terminated_text(texts(self.spec_elements()), terminator@),
                r,
            ),
    {
        let elements = self.elements();
        let ghost parts = wrap_each(texts(elements@), Seq::empty(), terminator@);
        let ghost total = concat_text(parts);
        proof {
            lemma_emitted_nothing(buf@);
            lemma_join_none(parts, Seq::empty());
        }
        let mut i: usize = 0;
        while i < elements.len()
            invariant
                i <= elements.len(),
                elements@ == self.spec_elements(),
                parts == wrap_each(texts(elements@), Seq::empty(), terminator@),
                total == concat_text(parts),
                emitted(old(buf)@, buf@, concat_text(parts.take(i as int))),
            decreases elements.len() - i,
        {
            let ghost acc = concat_text(parts.take(i as int));
            proof {
                lemma_concat_step(parts, i as int);
                assert(parts[i as int] =~= elements[i as int].text() + terminator@);
                lemma_step_render(old(buf)@, buf@, acc, parts[i as int], total);
            }
            elements[i].cwrite_suffixed_str(buf, terminator)?;
            i += 1;
        }
        proof {
            assert(parts.take(i as int) =~= parts);
        }
        Ok(())
    }

    /// The elements one after the other.
    fn cwrite_concatenated<W: Sink>(&self, buf: &mut W) -> (r: Result<(), SinkFailure>)
        ensures
            rendered(old(buf)@, final(buf)@, concat_text(texts(self.spec_elements())), r),
    {
        let elements = self.elements();
        let ghost parts = texts(elements@);
        let ghost total = concat_text(parts);
        proof {
            lemma_emitted_nothing(buf@);
            lemma_join_none(parts, Seq::empty());
        }
        let mut i: usize = 0;
        while i < elements.len()
            invariant
                i <= elements.len(),
                elements@ == self.spec_elements(),
                parts == texts(elements@),
                total == concat_text(parts),
                emitted(old(buf)@, buf@, concat_text(parts.take(i as int))),
            decreases elements.len() - i,
        {
            let ghost acc = concat_text(parts.take(i as int));
            proof {
                lemma_concat_step(parts, i as int);
                lemma_step_render(old(buf)@, buf@, acc, parts[i as int], total);
            }
            elements[i].cwrite(buf)?;
            i += 1;
        }
        proof {
            assert(parts.take(i as int) =~= parts);
        }
        Ok(())
    }

    /// The elements one after the other, between `prefix` and `suffix`.
    fn cwrite_concatenated_wrapped<W: Sink>(&self, buf: &mut W, prefix: char, suffix: char) -> (r:
        Result<(), SinkFailure>)
        ensures
            rendered(
                old(buf)@,
                final(buf)@,
                seq![prefix] + concat_text(texts(self.spec_elements())) + seq![suffix],
                r,
            ),
    {
        let ghost inner = concat_text(texts(self.spec_elements()));
        let ghost total = seq![prefix] + inner + seq![suffix];
        proof {
            lemma_first_write(buf@, seq![prefix], total);
        }
        buf.write_char(prefix)?;
        proof {
            lemma_step_render(old(buf)@, buf@, seq![prefix], inner, total);
        }
        self.cwrite_concatenated(buf)?;
        proof {
            lemma_step_write(old(buf)@, buf@, seq![prefix] + inner, seq![suffix], total);
        }
        buf.write_char(suffix)
    }

    /// The elements separated by a comma and a space.
    fn cwrite_csv<W: Sink>(&self, buf: &mut W) -> (r: Result<(), SinkFailure>)
        ensures
            rendered(old(buf)@, final(buf)@, csv_text(texts(self.spec_elements())), r),
    {
        proof {
            reveal_strlit(", ");
            assert(", "@ =~= seq![',', ' ']);
        }
        self.cwrite_join(buf, ", ")
    }

    /// A newline and each element followed by a newline; nothing for no element.
    fn cwrite_block<W: Sink>(&self, buf: &mut W) -> (r: Result<(), SinkFailure>)
        ensures
            rendered(
                old(buf)@,
                final(buf)@,
                block_text(texts(self.spec_elements()), seq!['\n']),
                r,
            ),
    {
        let elements = self.elements();
        let ghost inner = terminated_text(texts(self.spec_elements()), seq!['\n']);
        if elements.len() != 0 {
            proof {
                lemma_first_write(buf@, seq!['\n'], seq!['\n'] + inner);
            }
            buf.write_char('\n')?;
            proof {
                lemma_step_render(old(buf)@, buf@, seq!['\n'], inner, seq!['\n'] + inner);
            }
            self.cwrite_terminated(buf, '\n')
        } else {
            proof {
                lemma_emitted_nothing(buf@);
            }
            Ok(())
        }
    }

    /// A block between braces.
    fn cwrite_block_braced<W: Sink>(&self, buf: &mut W) -> (r: Result<(), SinkFailure>)
        ensures
            rendered(
                old(buf)@,
                final(buf)@,
                seq!['{'] + block_text(texts(self.spec_elements()), seq!['\n']) + seq!['}'],
                r,
            ),
    {
        let ghost inner = block_text(texts(self.spec_elements()), seq!['\n']);
        let ghost total = seq!['{'] + inner + seq!['}'];
        proof {
            lemma_first_write(buf@, seq!['{'], total);
        }
        buf.write_char('{')?;
        proof {
            lemma_step_render(old(buf)@, buf@, seq!['{'], inner, total);
        }
        self.cwrite_block(buf)?;
        proof {
            lemma_step_write(old(buf)@, buf@, seq!['{'] + inner, seq!['}'], total);
        }
        buf.write_char('}')
    }

    /// The elements as a tuple: a single element is followed by a comma, more
    /// are separated by a comma and a space.
    fn cwrite_tuple<W: Sink>(&self, buf: &mut W) -> (r: Result<(), SinkFailure>)
        ensures
            rendered(old(buf)@, final(buf)@, tuple_text(texts(self.spec_elements())), r),
    {
        let elements = self.elements();
        let ghost parts = texts(self.spec_elements());
        let ghost total = tuple_text(parts);
        let ghost inner = if parts.len() == 0 {
            Seq::<char>::empty()
        } else if parts.len() == 1 {
            parts[0] + seq![',']
        } else {
            csv_text(parts)
        };
        proof {
            assert(total =~= seq!['('] + inner + seq![')']);
            lemma_first_write(buf@, seq!['('], total);
        }
        buf.write_char('(')?;
        proof {
            lemma_step_render(old(buf)@, buf@, seq!['('], inner, total);
        }
        if elements.len() == 0 {
            proof {
                assert(seq!['('] + inner =~= seq!['(']);
            }
        } else if elements.len() == 1 {
            elements[0].cwrite_suffixed(buf, ',')?;
        } else {
            self.cwrite_csv(buf)?;
        }
        proof {
            lemma_step_write(old(buf)@, buf@, seq!['('] + inner, seq![')'], total);
        }
        buf.write_char(')')
    }

    /// The elements separated by a comma and a space, between `prefix` and
    /// `suffix`.
    fn cwrite_csv_wrapped<W: Sink>(&self, buf: &mut W, prefix: char, suffix: char) -> (r: Result<
        (),
        SinkFailure,
    >)
        ensures
            rendered(
                old(buf)@,
                final(buf)@,
                seq![prefix] + csv_text(texts(self.spec_elements())) + seq![suffix],
                r,
            ),
    {
        let ghost inner = csv_text(texts(self.spec_elements()));
        let ghost total = seq![prefix] + inner + seq![suffix];
        proof {
            lemma_first_write(buf@, seq![prefix], total);
        }
        buf.write_char(prefix)?;
        proof {
            lemma_step_render(old(buf)@, buf@, seq![prefix], inner, total);
        }
        self.cwrite_csv(buf)?;
        proof {
            lemma_step_write(old(buf)@, buf@, seq![prefix] + inner, seq![suffix], total);
        }
        buf.write_char(suffix)
    }

    /// The elements separated by a comma and a space, between `prefix` and
    /// `suffix`.
    fn cwrite_csv_wrapped_str<W: Sink>(&self, buf: &mut W, prefix: &str, suffix: &str) -> (r:
        Result<(), SinkFailure>)
        ensures
            rendered(
                old(buf)@,
                final(buf)@,
                prefix@ + csv_text(texts(self.spec_elements())) + suffix@,
                r,
            ),
    {
        let ghost inner = csv_text(texts(self.spec_elements()));
        let ghost total = prefix@ + inner + suffix@;
        proof {
            lemma_first_write(buf@, prefix@, total);
        }
        buf.write_str(prefix)?;
        proof {
            lemma_step_render(old(buf)@, buf@, prefix@, inner, total);
        }
        self.cwrite_csv(buf)?;
        proof {
            lemma_step_write(old(buf)@, buf@, prefix@ + inner, suffix@, total);
        }
        buf.write_str(suffix)
    }

    /// The elements separated by a comma and a space, between braces.
    fn cwrite_csv_braced<W: Sink>(&self, buf: &mut W) -> (r: Result<(), SinkFailure>)
        ensures
            rendered(
                old(buf)@,
                final(buf)@,
                seq!['{'] + csv_text(texts(self.spec_elements())) + seq!['}'],
                r,
            ),
    {
        self.cwrite_csv_wrapped(buf, '{', '}')
    }

    /// The elements separated by a comma and a space, between parentheses.
    fn cwrite_csv_parenthesized<W: Sink>(&self, buf: &mut W) -> (r: Result<(), SinkFailure>)
        ensures
            rendered(
                old(buf)@,
                final(buf)@,
                seq!['('] + csv_text(texts(self.spec_elements())) + seq![')'],
                r,
            ),
    {
        self.cwrite_csv_wrapped(buf, '(', ')')
    }

    /// The elements separated by a comma and a space, between square brackets.
    fn cwrite_csv_bracketed<W: Sink>(&self, buf: &mut W) -> (r: Result<(), SinkFailure>)
        ensures
            rendered(
                old(buf)@,
                final(buf)@,
                seq!['['] + csv_text(texts(self.spec_elements())) + seq![']'],
                r,
            ),
    {
        self.cwrite_csv_wrapped(buf, '[', ']')
    }

    /// The elements separated by a comma and a space, between angle brackets.
    fn cwrite_csv_angled<W: Sink>(&self, buf: &mut W) -> (r: Result<(), SinkFailure>)
        ensures
            rendered(
                old(buf)@,
                final(buf)@,
                seq!['<'] + csv_text(texts(self.spec_elements())) + seq!['>'],
                r,
            ),
    {
        self.cwrite_csv_wrapped(buf, '<', '>')
    }

    /// The elements separated by a comma and a space, between vertical bars.
    fn cwrite_csv_barred<W: Sink>(&self, buf: &mut W) -> (r: Result<(), SinkFailure>)
        ensures
            rendered(
                old(buf)@,
                final(buf)@,
                seq!['|'] + csv_text(texts(self.spec_elements())) + seq!['|'],
                r,
            ),
    {
        self.cwrite_csv_wrapped(buf, '|', '|')
    }

    /// An array literal: `array![`, the elements separated by a comma and a
    /// space, and `]`.
    fn cwrite_array<W: Sink>(&self, buf: &mut W) -> (r: Result<(), SinkFailure>)
        ensures
            rendered(
                old(buf)@,
                final(buf)@,
                "array!["@ + csv_text(texts(self.spec_elements())) + seq![']'],
                r,
            ),
    {
        let ghost inner = csv_text(texts(self.spec_elements()));
        let ghost total = "array!["@ + inner + seq![']'];
        proof {
            lemma_first_write(buf@, "array!["@, total);
        }
        buf.write_str("array![")?;
        proof {
            lemma_step_render(old(buf)@, buf@, "array!["@, inner, total);
        }
        self.cwrite_csv(buf)?;
        proof {
            lemma_step_write(old(buf)@, buf@, "array!["@ + inner, seq![']'], total);
        }
        buf.write_char(']')
    }

    /// A span literal: `[`, the elements separated by a comma and a space, and
    /// `].span()`.
    fn cwrite_span<W: Sink>(&self, buf: &mut W) -> (r: Result<(), SinkFailure>)
        ensures
            rendered(
                old(buf)@,
                final(buf)@,
                seq!['['] + csv_text(texts(self.spec_elements())) + "].span()"@,
                r,
            ),
    {
        let ghost inner = csv_text(texts(self.spec_elements()));
        let ghost total = seq!['['] + inner + "].span()"@;
        proof {
            lemma_first_write(buf@, seq!['['], total);
        }
        buf.write_char('[')?;
        proof {
            lemma_step_render(old(buf)@, buf@, seq!['['], inner, total);
        }
        self.cwrite_csv(buf)?;
        proof {
            lemma_step_write(old(buf)@, buf@, seq!['['] + inner, "].span()"@, total);
        }
        buf.write_str("].span()")
    }

    /// A newline and each element followed by a comma and a newline; nothing
    /// for no element.
    fn cwrite_fields<W: Sink>(&self, buf: &mut W) -> (r: Result<(), SinkFailure>)
        ensures
            rendered(
                old(buf)@,
                final(buf)@,
                block_text(texts(self.spec_elements()), seq![',', '\n']),
                r,
            ),
    {
        let elements = self.elements();
        let ghost inner = terminated_text(texts(self.spec_elements()), seq![',', '\n']);
        if elements.len() != 0 {
            proof {
                reveal_strlit(",\n");
                assert(",\n"@ =~= seq![',', '\n']);
                lemma_first_write(buf@, seq!['\n'], seq!['\n'] + inner);
            }
            buf.write_char('\n')?;
            proof {
                lemma_step_render(old(buf)@, buf@, seq!['\n'], inner, seq!['\n'] + inner);
            }
            self.cwrite_terminated_str(buf, ",\n")
        } else {
            proof {
                lemma_emitted_nothing(buf@);
            }
            Ok(())
        }
    }

    /// The fields between braces.
    fn cwrite_fields_braced<W: Sink>(&self, buf: &mut W) -> (r: Result<(), SinkFailure>)
        ensures
            rendered(
                old(buf)@,
                final(buf)@,
                seq!['{'] + block_text(texts(self.spec_elements()), seq![',', '\n']) + seq!['}'],
                r,
            ),
    {
        let ghost inner = block_text(texts(self.spec_elements()), seq![',', '\n']);
        let ghost total = seq!['{'] + inner + seq!['}'];
        proof {
            lemma_first_write(buf@, seq!['{'], total);
        }
        buf.write_char('{')?;
        proof {
            lemma_step_render(old(buf)@, buf@, seq!['{'], inner, total);
        }
        self.cwrite_fields(buf)?;
        proof {
            lemma_step_write(old(buf)@, buf@, seq!['{'] + inner, seq!['}'], total);
        }
        buf.write_char('}')
    }
}

impl<T> CairoWriteSlice for T where T: Slice, T::Element: CairoWrite {

}

/// Measuring and writing agree. Let a text be rendered into a sizer that has
/// counted nothing and into a string sink that holds nothing. If the string
/// sink takes the text, so does the sizer; the string sink then holds the text,
/// and the sizer has counted the bytes of that string.
pub proof fn lemma_size_hint_matches_render(
    text: Seq<char>,
    sizer: SinkState,
    string: SinkState,
    counted: Result<(), SinkFailure>,
    written: Result<(), SinkFailure>,
)
    requires
        rendered(
            SinkState { written: Seq::empty(), room: usize::MAX as nat },
            sizer,
            text,
            counted,
        ),
        rendered(
            SinkState { written: Seq::empty(), room: string_limit() },
            string,
            text,
            written,
        ),
        written is Ok,
    ensures
        counted is Ok,
        string.written == text,
        utf8_len(sizer.written) == utf8_len(string.written),
        sizer.room == usize::MAX - utf8_len(string.written),
{
    assert(Seq::<char>::empty() + text =~= text);
}

/// The laws of the empty sequence: nothing joined is nothing, whatever the
/// delimiter; a block or a list of fields of nothing is nothing, without the
/// leading newline; the wrapping pair of a wrapped sequence and the
/// parentheses of a tuple are still written.
pub proof fn lemma_empty_sequence(
    delimiter: Seq<char>,
    terminator: Seq<char>,
    open: char,
    close: char,
)
    ensures
        join_text(Seq::empty(), delimiter) == Seq::<char>::empty(),
        concat_text(Seq::empty()) == Seq::<char>::empty(),
        terminated_text(Seq::empty(), terminator) == Seq::<char>::empty(),
        block_text(Seq::empty(), terminator) == Seq::<char>::empty(),
        seq![open] + csv_text(Seq::empty()) + seq![close] == seq![open, close],
        tuple_text(Seq::empty()) == seq!['(', ')'],
{
    assert(wrap_each(Seq::empty(), Seq::empty(), terminator) =~= Seq::<Seq<char>>::empty());
    assert(seq![open] + csv_text(Seq::empty()) + seq![close] =~= seq![open, close]);
}

/// Where the delimiter goes: a single part stands alone, and every further
/// part brings exactly one delimiter, which stands before it. So no delimiter
/// leads or trails.
pub proof fn lemma_delimiter_placement(parts: Seq<Seq<char>>, delimiter: Seq<char>, next: Seq<char>)
    ensures
        parts.len() == 0 ==> join_text(parts.push(next), delimiter) == next,
        parts.len() > 0 ==> join_text(parts.push(next), delimiter) == join_text(parts, delimiter)
            + delimiter + next,
{
    assert(parts.push(next).drop_last() =~= parts);
}

/// The forms of a tuple: one element is followed by a comma, so that it is
/// not read as a value in parentheses; two or more are separated by a comma
/// and a space.
pub proof fn lemma_tuple_forms(first: Seq<char>, second: Seq<char>)
    ensures
        tuple_text(seq![first]) == seq!['('] + first + seq![',', ')'],
        tuple_text(seq![first, second]) == seq!['('] + first + seq![',', ' '] + second + seq![')'],
{
    assert(seq!['('] + first + seq![','] + seq![')'] =~= seq!['('] + first + seq![',', ')']);
    let two = seq![first, second];
    assert(two.drop_last() =~= seq![first]);
    assert(join_text(seq![first], seq![',', ' ']) == first);
    assert(join_text(two, seq![',', ' ']) == join_text(two.drop_last(), seq![',', ' ']) + seq![
        ',',
        ' ',
    ] + two.last()) by {
        reveal_with_fuel(join_text, 2);
    }
    assert(seq!['('] + (first + seq![',', ' '] + second) + seq![')'] =~= seq!['('] + first + seq![
        ',',
        ' ',
    ] + second + seq![')']);
}

} // verus!

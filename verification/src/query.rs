//! The form in which a query is sent to the service.

use vstd::prelude::*;
use vstd::utf8::encode_utf8;

verus! {

/// The bytes that percent-encoding leaves as they are: the ASCII letters and digits,
/// and `-`, `.`, `_`, `~`.
pub open spec fn unreserved(b: u8) -> bool {
    ||| 0x30 <= b <= 0x39
    ||| 0x41 <= b <= 0x5a
    ||| 0x61 <= b <= 0x7a
    ||| b == 0x2d
    ||| b == 0x2e
    ||| b == 0x5f
    ||| b == 0x7e
}

/// The upper-case hexadecimal digit for a value below 16.
pub open spec fn hex_digit(d: u8) -> char {
    if d < 10 {
        ((0x30 + d) as u8) as char
    } else {
        ((0x41 + d - 10) as u8) as char
    }
}

/// One byte, percent-encoded: itself where it is unreserved, and `%` with its two
/// hexadecimal digits otherwise.
pub open spec fn encoded_byte(b: u8) -> Seq<char> {
    if unreserved(b) {
        seq![b as char]
    } else {
        seq!['%', hex_digit(b / 16), hex_digit(b % 16)]
    }
}

/// Some bytes, percent-encoded one after the other.
pub open spec fn percent_encoded(bytes: Seq<u8>) -> Seq<char>
    decreases bytes.len(),
{
    if bytes.len() == 0 {
        Seq::empty()
    } else {
        encoded_byte(bytes[0]) + percent_encoded(bytes.drop_first())
    }
}

/// `text` with every match of `from` replaced by `to`, where the matches are found from
/// left to right and do not overlap. `from` is not empty.
pub open spec fn replaced(text: Seq<char>, from: Seq<char>, to: Seq<char>) -> Seq<char>
    decreases text.len(),
{
    if from.len() == 0 || text.len() < from.len() {
        text
    } else if from.is_prefix_of(text) {
        to + replaced(text.skip(from.len() as int), from, to)
    } else {
        seq![text[0]] + replaced(text.skip(1), from, to)
    }
}

/// `urlencoding::encode`: every byte of the text's UTF-8 form is percent-encoded, except
/// the ASCII letters and digits and `-`, `_`, `.`, `~`.
#[verifier::external_body]
fn encode(text: &str) -> (r: String)
    ensures
        r@ == percent_encoded(encode_utf8(text@)),
{
    urlencoding::encode(text).into_owned()
}

/// `str::replace` with string slices as the pattern and the replacement: every match of
/// the pattern, taken from left to right without overlap, is replaced.
#[verifier::external_body]
fn replace(text: &str, from: &str, to: &str) -> (r: String)
    requires
        from@.len() > 0,
    ensures
        r@ == replaced(text@, from@, to@),
{
    text.replace(from, to)
}

/// One byte as it stands in a query: `+` for a space, percent-encoded otherwise.
pub open spec fn query_byte(b: u8) -> Seq<char> {
    if b == 0x20 {
        seq!['+']
    } else {
        encoded_byte(b)
    }
}

/// Some bytes as they stand in a query.
pub open spec fn query_form(bytes: Seq<u8>) -> Seq<char>
    decreases bytes.len(),
{
    if bytes.len() == 0 {
        Seq::empty()
    } else {
        query_byte(bytes[0]) + query_form(bytes.drop_first())
    }
}

/// The query for `text` as the service takes it: the UTF-8 form of the text, with `+` for
/// each space and every other byte percent-encoded.
pub open spec fn search_query_text(text: Seq<char>) -> Seq<char> {
    query_form(encode_utf8(text))
}

/// To replace "%20" by "+" in percent-encoded bytes is to write `+` for each space: no
/// other byte brings a "%20" about, alone or with its neighbours.
pub proof fn lemma_plus_for_space(bytes: Seq<u8>)
    ensures
        replaced(percent_encoded(bytes), "%20"@, "+"@) == query_form(bytes),
    decreases bytes.len(),
{
    reveal_strlit("%20");
    reveal_strlit("+");
    let from = "%20"@;
    let to = "+"@;
    assert(from =~= seq!['%', '2', '0']);
    assert(to =~= seq!['+']);
    if bytes.len() > 0 {
        let b = bytes[0];
        let rest = percent_encoded(bytes.drop_first());
        let text = percent_encoded(bytes);
        lemma_plus_for_space(bytes.drop_first());
        if unreserved(b) {
            assert(text.skip(1) =~= rest);
            assert(text[0] != '%');
        } else if b == 0x20 {
            assert(encoded_byte(b) =~= from);
            assert(text.skip(3) =~= rest);
            assert(from =~= text.subrange(0, 3));
        } else {
            let h1 = hex_digit(b / 16);
            let h2 = hex_digit(b % 16);
            assert(h1 != '%' && h2 != '%');
            assert(!(h1 == '2' && h2 == '0'));
            let t1 = text.skip(1);
            let t2 = t1.skip(1);
            assert(t1 =~= seq![h1, h2] + rest);
            assert(t2 =~= seq![h2] + rest);
            assert(t2.skip(1) =~= rest);
            assert(text.subrange(0, 3) =~= seq!['%', h1, h2]);
            assert(!from.is_prefix_of(text));
            assert(replaced(text, from, to) == seq![text[0]] + replaced(t1, from, to));
            assert(replaced(t2, from, to) == seq![h2] + replaced(rest, from, to));
            assert(replaced(t1, from, to) == seq![h1] + replaced(t2, from, to));
            assert(replaced(text, from, to) =~= seq!['%', h1, h2] + replaced(rest, from, to));
        }
    }
}

/// The query for `text` as the service takes it.
pub fn search_query(text: &str) -> (r: String)
    ensures
        r@ == search_query_text(text@),
{
    proof {
        reveal_strlit("%20");
        lemma_plus_for_space(encode_utf8(text@));
    }
    let encoded = encode(text);
    replace(encoded.as_str(), "%20", "+")
}

} // verus!

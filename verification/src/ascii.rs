//! Text as a listing of its character codes, and back.
//!
//! A listing holds, for each character, its code point in decimal with at
//! least three digits, and a space after it. Any text can be listed; only a
//! listing of codes up to 127 can be read back.

use crate::error::ConvertError;
use crate::numeral::{
    is_digit, lemma_parse_padded, parse_number, parse_unsigned, push_padded, zero_padded,
};
use crate::text::{
    chars_of, code_point, lemma_code_point_bound, lemma_first_index_of, lemma_flat_map_step, split,
    split_chars, trim, trim_chars, trim_end, trim_start,
};
use vstd::prelude::*;

verus! {

/// The entry of `c` in a listing: its code point in at least three digits,
/// then one space.
pub open spec fn code_entry(c: char) -> Seq<char> {
    zero_padded(c as nat, 3).push(' ')
}

/// The listing of `text`: the entries of its characters, in order.
pub open spec fn code_listing(text: Seq<char>) -> Seq<char> {
    text.flat_map(|c: char| code_entry(c))
}

/// `r` with `prefix` in front of its text, where it has one.
pub open spec fn prepend(prefix: Seq<char>, r: Result<Seq<char>, ConvertError>) -> Result<
    Seq<char>,
    ConvertError,
> {
    match r {
        Ok(rest) => Ok(prefix + rest),
        Err(e) => Err(e),
    }
}

/// The characters that `tokens` stand for, or the failure of the first
/// token that stands for none: `InvalidFormat` where it is no number,
/// `InvalidValue` where the number is above 127.
pub open spec fn decode_tokens(tokens: Seq<Seq<char>>) -> Result<Seq<char>, ConvertError>
    decreases tokens.len(),
{
    if tokens.len() == 0 {
        Ok(Seq::empty())
    } else {
        match parse_unsigned(tokens[0]) {
            None => Err(ConvertError::InvalidFormat),
            Some(n) => if n > 127 {
                Err(ConvertError::InvalidValue)
            } else {
                prepend(seq![n as char], decode_tokens(tokens.drop_first()))
            },
        }
    }
}

/// The text that `listing` stands for: the listing is trimmed and split at
/// every single space, and each piece is a token.
pub open spec fn listed_text(listing: Seq<char>) -> Result<Seq<char>, ConvertError> {
    decode_tokens(split(trim(listing), ' '))
}

/// Whether `r` is `listed`, as a string.
pub open spec fn is_text_of(listed: Result<Seq<char>, ConvertError>, r: Result<
    String,
    ConvertError,
>) -> bool {
    match listed {
        Ok(text) => r matches Ok(s) && s@ == text,
        Err(e) => r == Err::<String, ConvertError>(e),
    }
}

/// Lists the code points of `txt_content`. Every text has a listing: the
/// result is never an error.
pub fn txt_to_asc(txt_content: &str) -> (r: Result<String, ConvertError>)
    ensures
        r matches Ok(listing) && listing@ == code_listing(txt_content@),
{
    let chars = chars_of(txt_content);
    let mut out = String::new();
    let mut i: usize = 0;
    assert(code_listing(chars@.take(0)) =~= Seq::<char>::empty());
    while i < chars.len()
        invariant
            i <= chars.len(),
            out@ == code_listing(chars@.take(i as int)),
        decreases chars.len() - i,
    {
        push_padded(&mut out, code_point(chars[i]) as u128);
        out.push(' ');
        proof {
            lemma_flat_map_step(chars@, |c: char| code_entry(c), i as int);
        }
        i += 1;
    }
    assert(chars@.take(chars.len() as int) == chars@);
    Ok(out)
}

/// Reads a listing of codes back into text.
pub fn asc_to_txt(asc_content: &str) -> (r: Result<String, ConvertError>)
    ensures
        is_text_of(listed_text(asc_content@), r),
{
    let chars = chars_of(asc_content);
    let trimmed = trim_chars(&chars);
    let tokens = split_chars(&trimmed, ' ');
    let ghost all = tokens.deep_view();
    let mut out = String::new();
    let mut i: usize = 0;
    assert(all.skip(0) == all);
    while i < tokens.len()
        invariant
            i <= tokens.len(),
            all == tokens.deep_view(),
            all == split(trim(asc_content@), ' '),
            decode_tokens(all) == prepend(out@, decode_tokens(all.skip(i as int))),
        decreases tokens.len() - i,
    {
        let ghost rest = all.skip(i as int);
        assert(rest[0] =~= tokens@[i as int]@);
        assert(rest.drop_first() == all.skip(i + 1));
        match parse_number(&tokens[i]) {
            None => {
                return Err(ConvertError::InvalidFormat);
            },
            Some(n) => {
                if n > 127 {
                    return Err(ConvertError::InvalidValue);
                }
                let ghost before = out@;
                out.push(n as u8 as char);
                assert(forall|r: Seq<char>| before + (seq![n as char] + r) == out@ + r);
            },
        }
        i += 1;
    }
    Ok(out)
}

/// The tokens of the listing of `text`: the padded code of each character.
pub open spec fn code_tokens(text: Seq<char>) -> Seq<Seq<char>> {
    text.map_values(|c: char| zero_padded(c as nat, 3))
}

/// A listing starts with the entry of the first character.
proof fn lemma_listing_unfold(text: Seq<char>)
    requires
        text.len() > 0,
    ensures
        code_listing(text) == code_entry(text[0]) + code_listing(text.drop_first()),
{
    let f = |c: char| code_entry(c);
    assert(text.map_values(f).drop_first() =~= text.drop_first().map_values(f));
}

/// The listing of a text that is not empty starts with a digit and ends
/// with a digit and a space, and without that space it splits at its spaces
/// into the padded codes.
proof fn lemma_listing_splits(text: Seq<char>)
    requires
        text.len() > 0,
    ensures
        code_listing(text).len() >= 2,
        is_digit(code_listing(text)[0]),
        code_listing(text).last() == ' ',
        is_digit(code_listing(text)[code_listing(text).len() - 2]),
        split(code_listing(text).drop_last(), ' ') == code_tokens(text),
    decreases text.len(),
{
    let first = zero_padded(text[0] as nat, 3);
    let rest = text.drop_first();
    let listing = code_listing(text);
    let body = listing.drop_last();
    let k = first.len() as int;
    lemma_code_point_bound(text[0]);
    lemma_parse_padded(text[0] as nat, 3);
    lemma_listing_unfold(text);
    assert(code_tokens(text)[0] == first);
    if rest.len() == 0 {
        assert(rest.map_values(|c: char| code_entry(c)) =~= Seq::<Seq<char>>::empty());
        assert(listing =~= first.push(' '));
        assert(body =~= first);
        lemma_first_index_of(body, ' ', k);
        assert(code_tokens(text) =~= seq![first]);
    } else {
        lemma_listing_splits(rest);
        let tail = code_listing(rest);
        assert(listing =~= first.push(' ') + tail);
        assert(body =~= first.push(' ') + tail.drop_last());
        assert forall|i: int| 0 <= i < k implies body[i] != ' ' by {
            assert(body[i] == first[i]);
        }
        lemma_first_index_of(body, ' ', k);
        assert(body.take(k) =~= first);
        assert(body.skip(k + 1) =~= tail.drop_last());
        assert(code_tokens(text) =~= seq![first] + code_tokens(rest));
    }
}

/// Trimming the listing of a text that is not empty takes its last space
/// away, and nothing else.
proof fn lemma_listing_trims(text: Seq<char>)
    requires
        text.len() > 0,
    ensures
        trim(code_listing(text)) == code_listing(text).drop_last(),
{
    lemma_listing_splits(text);
    let listing = code_listing(text);
    let body = listing.drop_last();
    assert(trim_start(listing) == listing);
    assert(body.last() == listing[listing.len() - 2]);
    assert(trim_end(body) == body);
}

/// The padded codes of characters up to 127 are read back as those
/// characters.
proof fn lemma_tokens_decode(text: Seq<char>)
    requires
        forall|i: int| 0 <= i < text.len() ==> text[i] as nat <= 127,
    ensures
        decode_tokens(code_tokens(text)) == Ok::<Seq<char>, ConvertError>(text),
    decreases text.len(),
{
    if text.len() == 0 {
        assert(text =~= Seq::<char>::empty());
    } else {
        let rest = text.drop_first();
        let n = text[0] as nat;
        lemma_code_point_bound(text[0]);
        lemma_parse_padded(n, 3);
        lemma_tokens_decode(rest);
        assert(code_tokens(text)[0] == zero_padded(n, 3));
        assert(n as char == text[0]);
        assert(code_tokens(text).drop_first() =~= code_tokens(rest));
        assert(seq![text[0]] + rest =~= text);
    }
}

/// Reading the padded codes stops with `InvalidValue` where a character is
/// above 127.
proof fn lemma_tokens_refused(text: Seq<char>, at: int)
    requires
        0 <= at < text.len(),
        text[at] as nat > 127,
    ensures
        decode_tokens(code_tokens(text)) == Err::<Seq<char>, ConvertError>(
            ConvertError::InvalidValue,
        ),
    decreases text.len(),
{
    let rest = text.drop_first();
    let n = text[0] as nat;
    lemma_code_point_bound(text[0]);
    lemma_parse_padded(n, 3);
    assert(code_tokens(text)[0] == zero_padded(n, 3));
    if n <= 127 {
        lemma_tokens_refused(rest, at - 1);
        assert(code_tokens(text).drop_first() =~= code_tokens(rest));
    }
}

/// Listing a text of characters up to 127 and reading the listing back
/// gives the text again. The empty text is left out: its listing is empty,
/// and an empty listing holds one token that is no number.
pub proof fn lemma_ascii_round_trip(text: Seq<char>)
    requires
        text.len() > 0,
        forall|i: int| 0 <= i < text.len() ==> text[i] as nat <= 127,
    ensures
        listed_text(code_listing(text)) == Ok::<Seq<char>, ConvertError>(text),
{
    lemma_listing_splits(text);
    lemma_listing_trims(text);
    lemma_tokens_decode(text);
}

/// Listing a text with a character above 127 and reading the listing back
/// fails with `InvalidValue`.
pub proof fn lemma_beyond_ascii_refused(text: Seq<char>)
    requires
        exists|i: int| 0 <= i < text.len() && text[i] as nat > 127,
    ensures
        listed_text(code_listing(text)) == Err::<Seq<char>, ConvertError>(
            ConvertError::InvalidValue,
        ),
{
    let at = choose|i: int| 0 <= i < text.len() && text[i] as nat > 127;
    lemma_listing_splits(text);
    lemma_listing_trims(text);
    lemma_tokens_refused(text, at);
}

} // verus!

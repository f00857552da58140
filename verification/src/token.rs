//! The random token that marks a lock key as ours.

use rand::Rng;
use vstd::prelude::*;

verus! {

/// Characters in a token.
pub const TOKEN_LEN: usize = 32;

/// Bytes of a token that a log line shows, so that noise stays bounded.
pub const TOKEN_LOG_PREFIX: usize = 8;

/// An ASCII letter or digit.
pub open spec fn is_alphanumeric(c: char) -> bool {
    'A' <= c <= 'Z' || 'a' <= c <= 'z' || '0' <= c <= '9'
}

/// What every token looks like.
pub open spec fn is_token(s: Seq<char>) -> bool {
    s.len() == TOKEN_LEN && forall|i: int| 0 <= i < s.len() ==> is_alphanumeric(#[trigger] s[i])
}

/// `rand::Rng::sample` of the thread's generator with the `Alphanumeric`
/// distribution: some ASCII letter or digit, as a character. Which one is left to
/// chance. It panics only where the operating system has no randomness to seed
/// the generator with.
#[verifier::external_body]
fn sample_alphanumeric() -> (c: char)
    ensures
        is_alphanumeric(c),
{
    char::from(rand::thread_rng().sample(rand::distributions::Alphanumeric))
}

/// A fresh random token.
pub fn random_token() -> (token: String)
    ensures
        is_token(token@),
{
    let mut token = String::new();
    let mut i: usize = 0;
    while i < TOKEN_LEN
        invariant
            i <= TOKEN_LEN,
            token@.len() == i,
            forall|j: int| 0 <= j < token@.len() ==> is_alphanumeric(#[trigger] token@[j]),
        decreases TOKEN_LEN - i,
    {
        token.push(sample_alphanumeric());
        i += 1;
    }
    token
}

/// How many bytes of a token, given as its UTF-8 bytes, a log line shows.
pub open spec fn shown_len(bytes: Seq<u8>) -> int {
    if bytes.len() < TOKEN_LOG_PREFIX {
        bytes.len() as int
    } else {
        TOKEN_LOG_PREFIX as int
    }
}

/// The start of a token, for log lines.
pub fn short_token(token: &str) -> (short: &str)
    requires
        vstd::utf8::is_char_boundary(
            vstd::utf8::encode_utf8(token@),
            shown_len(vstd::utf8::encode_utf8(token@)),
        ),
    ensures
        vstd::utf8::encode_utf8(short@) == vstd::utf8::encode_utf8(token@).take(
            shown_len(vstd::utf8::encode_utf8(token@)),
        ),
{
    let len: usize = token.as_bytes().len();
    let shown: usize = if len < TOKEN_LOG_PREFIX {
        len
    } else {
        TOKEN_LOG_PREFIX
    };
    token.split_at(shown).0
}

/// A token can be shortened, and its first eight characters are what
/// [`short_token`] shows of it.
pub proof fn token_is_shortened(token: Seq<char>, short: Seq<char>)
    requires
        is_token(token),
    ensures
        vstd::utf8::is_char_boundary(
            vstd::utf8::encode_utf8(token),
            shown_len(vstd::utf8::encode_utf8(token)),
        ),
        vstd::utf8::encode_utf8(short) == vstd::utf8::encode_utf8(token).take(
            shown_len(vstd::utf8::encode_utf8(token)),
        ) ==> short == token.take(TOKEN_LOG_PREFIX as int),
{
    let start = token.take(TOKEN_LOG_PREFIX as int);
    let bytes = vstd::utf8::encode_utf8(token);
    vstd::utf8::is_ascii_chars_encode_utf8(token);
    vstd::utf8::is_ascii_chars_encode_utf8(start);
    assert(bytes.take(TOKEN_LOG_PREFIX as int) =~= vstd::utf8::encode_utf8(start));
    vstd::utf8::encode_utf8_decode_utf8(short);
    vstd::utf8::encode_utf8_decode_utf8(start);
    vstd::utf8::encode_utf8_valid_utf8(token);
    vstd::utf8::is_char_boundary_iff_not_is_continuation_byte(bytes, TOKEN_LOG_PREFIX as int);
}

/// A token is 32 letters and digits, and what is shown of any text is its first eight
/// bytes, or all of it where it has fewer.
pub proof fn tokens_are_long_and_shown_short(token: String, text: &str, short: &str)
    requires
        call_ensures(random_token, (), token),
        call_ensures(short_token, (text,), short),
    ensures
        token@.len() == 32,
        forall|i: int|
            0 <= i < token@.len() ==> {
                let c = #[trigger] token@[i];
                'A' <= c <= 'Z' || 'a' <= c <= 'z' || '0' <= c <= '9'
            },
        ({
            let all = vstd::utf8::encode_utf8(text@);
            let shown = vstd::utf8::encode_utf8(short@);
            &&& shown.is_prefix_of(all)
            &&& all.len() < 8 ==> shown == all
            &&& all.len() >= 8 ==> shown.len() == 8
        }),
{
}

} // verus!

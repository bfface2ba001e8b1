//! Signed session tokens: the value of the session cookie.
//!
//! A token is the session id, one dot, and the lower-case hexadecimal
//! HMAC-SHA256 tag of the id, and nothing else. The tag authenticates the id
//! alone; the id is the only key into the session store.

use vstd::prelude::*;
use vstd::string::*;
use vstd::utf8::*;
use crate::hexcode::{hex_string, lemma_hex_round_trip, lemma_hex_string_has_no_dot,
    lemma_hex_string_injective};
use crate::mac::hmac_sha256;
use crate::hexcode::HEX_TAG_LEN;
use crate::text::{after_first, before_first, first_position, lemma_first_position,
    lemma_first_position_is};

verus! {

/// The tag that `secret` gives to the session id `id`, as it is written in a
/// token.
pub open spec fn token_tag(secret: Seq<u8>, id: Seq<char>) -> Seq<char> {
    hex_string(hmac_sha256(secret, encode_utf8(id)))
}

/// The token for the session id `id`.
pub open spec fn signed_token(secret: Seq<u8>, id: Seq<char>) -> Seq<char> {
    id + seq!['.'] + token_tag(secret, id)
}

/// The id part of a token: what stands before its first dot.
pub open spec fn token_id_part(token: Seq<char>) -> Seq<char> {
    before_first(token, '.')
}

/// The tag part of a token: all that stands after its first dot.
pub open spec fn token_tag_part(token: Seq<char>) -> Seq<char> {
    after_first(token, '.')
}

/// The session id that a token proves, if it proves one: the token must
/// hold a dot, what follows that dot must hold no further dot, and it must
/// be the tag of what precedes the dot.
pub open spec fn token_subject(secret: Seq<u8>, token: Seq<char>) -> Option<Seq<char>> {
    if first_position(token, '.') < token.len() && first_position(token_tag_part(token), '.')
        == token_tag_part(token).len() && token_tag_part(token) == token_tag(
        secret,
        token_id_part(token),
    ) {
        Some(token_id_part(token))
    } else {
        None
    }
}

/// Signs a session id: the value to place in the session cookie.
pub fn sign(secret: &[u8], session_id: &str) -> (token: String)
    ensures
        token@ == signed_token(secret@, session_id@),
{
    let tag = crate::mac::tag_of(secret, session_id.as_bytes());
    let tag_text = crate::hexcode::encode(tag.as_slice());
    let mut token: String = session_id.to_owned();
    token.append(".");
    token.append(tag_text.as_str());
    proof {
        reveal_strlit(".");
        assert("."@ =~= seq!['.']);
    }
    token
}

/// Checks a token and returns the session id it proves. A token without a
/// dot, with a second dot, or whose tag part is not exactly the lower-case
/// tag of its id part, proves nothing. A token that proves an id has a tag
/// part of 64 characters.
pub fn verify(secret: &[u8], token: &str) -> (id: Option<String>)
    ensures
        match id {
            Some(s) => token_subject(secret@, token@) == Some(s@),
            None => token_subject(secret@, token@) is None,
        },
        id is Some ==> token_tag_part(token@).len() == HEX_TAG_LEN,
{
    let total = token.unicode_len();
    let dot = crate::text::find_first(token, '.');
    proof {
        lemma_first_position(token@, '.');
    }
    if dot >= total {
        return None;
    }
    let id = token.substring_char(0, dot);
    let tag_text = token.substring_char(dot + 1, total);
    let tag_total = tag_text.unicode_len();
    let end = crate::text::find_first(tag_text, '.');
    assert(id@ == token_id_part(token@));
    assert(tag_text@ == token_tag_part(token@));
    if end < tag_total {
        return None;
    }
    let ghost expected = hmac_sha256(secret@, encode_utf8(id@));
    proof {
        lemma_first_position(tag_text@, '.');
        lemma_hex_round_trip(expected);
        lemma_hex_string_has_no_dot(expected);
        lemma_first_position_is(token_tag(secret@, id@), '.', token_tag(secret@, id@).len() as int);
    }
    match crate::hexcode::decode(tag_text) {
        None => None,
        Some(tag) => {
            if crate::mac::tag_matches(secret, id.as_bytes(), tag.as_slice()) {
                let canonical = crate::hexcode::encode(tag.as_slice());
                if crate::text::same_text(canonical.as_str(), tag_text) {
                    Some(id.to_owned())
                } else {
                    None
                }
            } else {
                None
            }
        },
    }
}

/// Whether `text` holds no dot, as every issued session id does.
pub open spec fn dot_free(text: Seq<char>) -> bool {
    forall|i: int| 0 <= i < text.len() ==> text[i] != '.'
}

/// A token that was signed for a dot-free id proves that id under the same
/// secret.
pub proof fn lemma_signed_token_verifies(secret: Seq<u8>, id: Seq<char>)
    requires
        dot_free(id),
    ensures
        token_subject(secret, signed_token(secret, id)) == Some(id),
{
    let tag = token_tag(secret, id);
    let token = signed_token(secret, id);
    lemma_hex_string_has_no_dot(hmac_sha256(secret, encode_utf8(id)));
    lemma_first_position_is(token, '.', id.len() as int);
    assert(token_id_part(token) =~= id);
    assert(after_first(token, '.') =~= tag);
    lemma_first_position_is(tag, '.', tag.len() as int);
}

/// Changing one character of the tag of a signed token, or its separating
/// dot, gives a token that proves nothing.
pub proof fn lemma_tampered_tag_rejected(secret: Seq<u8>, id: Seq<char>, at: int, c: char)
    requires
        dot_free(id),
        id.len() <= at < signed_token(secret, id).len(),
        c != signed_token(secret, id)[at],
    ensures
        token_subject(secret, signed_token(secret, id).update(at, c)) is None,
{
    let tag = token_tag(secret, id);
    let token = signed_token(secret, id);
    let changed = token.update(at, c);
    lemma_hex_string_has_no_dot(hmac_sha256(secret, encode_utf8(id)));
    if at == id.len() {
        lemma_first_position_is(changed, '.', changed.len() as int);
    } else {
        let k = at - id.len() - 1;
        lemma_first_position_is(changed, '.', id.len() as int);
        assert(token_id_part(changed) =~= id);
        let rest = after_first(changed, '.');
        assert(rest =~= tag.update(k, c));
        if c == '.' {
            lemma_first_position_is(rest, '.', k);
        } else {
            assert(rest[k] != tag[k]);
        }
    }
}

/// Changing one character of the id of a signed token into a dot gives a
/// token that proves nothing: it then holds two dots.
pub proof fn lemma_dot_in_id_rejected(secret: Seq<u8>, id: Seq<char>, at: int)
    requires
        dot_free(id),
        0 <= at < id.len(),
    ensures
        token_subject(secret, signed_token(secret, id).update(at, '.')) is None,
{
    let tag = token_tag(secret, id);
    let changed = signed_token(secret, id).update(at, '.');
    lemma_first_position_is(changed, '.', at);
    let rest = after_first(changed, '.');
    assert(rest =~= id.subrange(at + 1, id.len() as int) + seq!['.'] + tag);
    lemma_first_position_is(rest, '.', id.len() - at - 1);
}

/// Changing one character of the id of a signed token into another
/// character that is no dot gives a token that proves nothing, unless the
/// secret gives the changed id the very tag of the unchanged one.
pub proof fn lemma_tampered_id_rejected(secret: Seq<u8>, id: Seq<char>, at: int, c: char)
    requires
        dot_free(id),
        0 <= at < id.len(),
        c != id[at],
        c != '.',
    ensures
        hmac_sha256(secret, encode_utf8(id.update(at, c))) != hmac_sha256(secret, encode_utf8(id))
            ==> token_subject(secret, signed_token(secret, id).update(at, c)) is None,
{
    let tag = token_tag(secret, id);
    let token = signed_token(secret, id);
    let changed = token.update(at, c);
    let other = id.update(at, c);
    lemma_first_position_is(changed, '.', id.len() as int);
    assert(token_id_part(changed) =~= other);
    assert(after_first(changed, '.') =~= tag);
    if token_tag(secret, other) == tag {
        lemma_hex_string_injective(
            hmac_sha256(secret, encode_utf8(other)),
            hmac_sha256(secret, encode_utf8(id)),
        );
    }
}

/// A token with anything written after it behind a further dot proves
/// nothing, whatever it proved before.
pub proof fn lemma_trailing_part_rejected(secret: Seq<u8>, token: Seq<char>, extra: Seq<char>)
    requires
        first_position(token, '.') < token.len(),
    ensures
        token_subject(secret, token + seq!['.'] + extra) is None,
{
    let longer = token + seq!['.'] + extra;
    let dot = first_position(token, '.') as int;
    lemma_first_position(token, '.');
    assert forall|j: int| 0 <= j < dot implies longer[j] != '.' by {
        assert(longer[j] == token[j]);
    }
    assert(longer[dot] == token[dot]);
    lemma_first_position_is(longer, '.', dot);
    let rest = after_first(longer, '.');
    lemma_first_position(rest, '.');
    assert(rest[token.len() - dot - 1] == longer[token.len() as int]);
    assert(rest[token.len() - dot - 1] == '.');
    if first_position(rest, '.') == rest.len() {
        assert(false);
    }
}

} // verus!

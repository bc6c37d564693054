use vstd::prelude::*;

use crate::errors::MfError;
use crate::strutil::chars_of;
use crate::strutil::find_sub;
use crate::strutil::lemma_find_bounds;
use crate::strutil::spec_find;
use crate::strutil::string_of;
use crate::strutil::subvec;

verus! {

/// An ASCII letter, either case.
pub open spec fn is_ascii_letter(c: char) -> bool {
    (65 <= c as u32 && c as u32 <= 90) || (97 <= c as u32 && c as u32 <= 122)
}

/// The fixed self-inverse substitution: an ASCII letter moves 13 places
/// within its case's 26-letter alphabet, wrapping around; any other
/// character is unchanged.
pub open spec fn rot_char(c: char) -> char {
    let u = c as u32;
    if 65 <= u && u <= 90 {
        (((u - 65 + 13) % 26 + 65) as u8) as char
    } else if 97 <= u && u <= 122 {
        (((u - 97 + 13) % 26 + 97) as u8) as char
    } else {
        c
    }
}

/// The substitution applied to every character of a string.
pub open spec fn rot_seq(s: Seq<char>) -> Seq<char> {
    s.map_values(|c: char| rot_char(c))
}

/// The substitution is its own inverse, and characters outside the two
/// alphabets are left alone.
pub proof fn lemma_rot_char_involution(c: char)
    ensures
        rot_char(rot_char(c)) == c,
        !is_ascii_letter(c) ==> rot_char(c) == c,
{
}

/// The substitution applied twice to a string gives the string back.
pub proof fn lemma_rot_seq_involution(s: Seq<char>)
    ensures
        rot_seq(rot_seq(s)) == s,
{
    assert forall|i: int| 0 <= i < s.len() implies rot_seq(rot_seq(s))[i] == s[i] by {
        lemma_rot_char_involution(s[i]);
    }
    assert(rot_seq(rot_seq(s)) =~= s);
}

/// The substitution, on one character.
pub fn rot13(c: char) -> (r: char)
    ensures
        r == rot_char(c),
{
    let u = c as u32;
    if 65 <= u && u <= 90 {
        (((u - 65 + 13) % 26 + 65) as u8) as char
    } else if 97 <= u && u <= 122 {
        (((u - 97 + 13) % 26 + 97) as u8) as char
    } else {
        c
    }
}

/// The substitution, on every character of a vector.
pub fn rot_vec(cs: &Vec<char>) -> (r: Vec<char>)
    ensures
        r@ == rot_seq(cs@),
{
    let mut out: Vec<char> = Vec::new();
    let mut i: usize = 0;
    while i < cs.len()
        invariant
            i <= cs@.len(),
            out@ == rot_seq(cs@.subrange(0, i as int)),
        decreases cs@.len() - i,
    {
        out.push(rot13(cs[i]));
        proof {
            assert(rot_seq(cs@.subrange(0, i + 1)) =~= rot_seq(cs@.subrange(0, i as int)).push(
                rot_char(cs@[i as int]),
            ));
        }
        i += 1;
    }
    proof {
        assert(cs@.subrange(0, cs@.len() as int) =~= cs@);
    }
    out
}

/// The substitution, on every character of a string.
pub fn transform_token(token: &str) -> (r: String)
    ensures
        r@ == rot_seq(token@),
{
    let cs = chars_of(token);
    let out = rot_vec(&cs);
    string_of(&out)
}

/// A `Result` of a `String`, seen as a `Result` of its characters.
pub open spec fn res_view(r: Result<String, MfError>) -> Result<Seq<char>, MfError> {
    match r {
        Ok(s) => Ok(s@),
        Err(e) => Err(e),
    }
}

/// The session fragment of a cookie: the text after the first `mfsession=`
/// marker, up to the next `;`.  `MissingMarker` when the marker is absent,
/// `MissingDelimiter` when no `;` follows it.
pub open spec fn spec_extract_session(cookie: Seq<char>) -> Result<Seq<char>, MfError> {
    match spec_find(cookie, "mfsession="@, 0) {
        None => Err(MfError::MissingMarker),
        Some(i) => {
            let rest = cookie.subrange(i + "mfsession="@.len(), cookie.len() as int);
            match spec_find(rest, ";"@, 0) {
                None => Err(MfError::MissingDelimiter),
                Some(j) => Ok(rest.subrange(0, j)),
            }
        },
    }
}

/// The bearer token a cookie yields: its session fragment, with the
/// substitution applied.
pub open spec fn spec_token(cookie: Seq<char>) -> Result<Seq<char>, MfError> {
    match spec_extract_session(cookie) {
        Ok(s) => Ok(rot_seq(s)),
        Err(e) => Err(e),
    }
}

/// The bearer token a landing response yields: `NoCookieHeader` when no
/// cookie header came back, else what the cookie yields.
pub open spec fn spec_token_from_header(h: Option<Seq<char>>) -> Result<Seq<char>, MfError> {
    match h {
        None => Err(MfError::NoCookieHeader),
        Some(c) => spec_token(c),
    }
}

/// Derives the bearer token from the landing response's optional cookie
/// header.
pub fn token_from_header(header: &Option<String>) -> (r: Result<String, MfError>)
    ensures
        res_view(r) == spec_token_from_header(crate::strutil::opt_view(*header)),
{
    match header {
        None => Err(MfError::NoCookieHeader),
        Some(c) => token_from_cookie(c.as_str()),
    }
}

/// Derives the bearer token from a raw cookie string.
pub fn token_from_cookie(cookie: &str) -> (r: Result<String, MfError>)
    ensures
        res_view(r) == spec_token(cookie@),
{
    let cs = chars_of(cookie);
    let marker = chars_of("mfsession=");
    match find_sub(&cs, &marker, 0) {
        None => Err(MfError::MissingMarker),
        Some(i) => {
            proof {
                lemma_find_bounds(cs@, marker@, 0);
            }
            let n = cs.len();
            let rest = subvec(&cs, i + marker.len(), n);
            let semi = chars_of(";");
            match find_sub(&rest, &semi, 0) {
                None => Err(MfError::MissingDelimiter),
                Some(j) => {
                    proof {
                        lemma_find_bounds(rest@, semi@, 0);
                    }
                    let frag = subvec(&rest, 0, j);
                    let token = rot_vec(&frag);
                    Ok(string_of(&token))
                },
            }
        },
    }
}

} // verus!

//! The signed-token codec: a token is `hs1.<claims>.<signature>`, where the
//! claims part writes every field at a fixed offset (hex for numbers, one
//! character per role) and the signature is the HMAC tag of everything before
//! the second separator. Decoding rejects malformed text and bad signatures
//! but deliberately ignores expiry: clock checks are a separate step.
use crate::claims::{Claims, ClaimsV, Role, Typ};
use crate::hexfmt::{
    lemma_hex_no_dot, lemma_hex_roundtrip, lemma_hex_val_bound, lemma_pow16_16, lemma_pow16_32,
    parse_hex, push_hex, spec_hex, spec_hex_val,
};
use vstd::prelude::*;

verus! {

/// Why a token failed to verify. All kinds surface to clients as one
/// uniform authentication failure; the distinction is for the server side.
#[derive(Debug, Clone, Copy, PartialEq, Eq, Structural)]
pub enum TokenError {
    SignatureInvalid,
    Malformed,
    TypeMismatch,
    Expired,
    NotYetValid,
}

/// Appends the characters of `lit` to `out`.
pub(crate) fn push_lit(out: &mut Vec<char>, lit: &str)
    ensures
        final(out)@ == old(out)@ + lit@,
{
    let n = lit.unicode_len();
    let mut i: usize = 0;
    while i < n
        invariant
            i <= n == lit@.len(),
            out@ == old(out)@ + lit@.subrange(0, i as int),
        decreases n - i,
    {
        out.push(lit.get_char(i));
        assert(out@ =~= old(out)@ + lit@.subrange(0, i + 1));
        i += 1;
    }
    assert(lit@.subrange(0, n as int) =~= lit@);
}

/// True exactly when the characters of `s` starting at `from` spell `lit`.
pub(crate) fn match_lit(s: &Vec<char>, from: usize, lit: &str) -> (r: bool)
    requires
        from + lit@.len() <= s@.len(),
    ensures
        r == (s@.subrange(from as int, from + lit@.len()) == lit@),
{
    let n = lit.unicode_len();
    let slen = s.len();
    let ghost piece = s@.subrange(from as int, from + lit@.len());
    let mut i: usize = 0;
    while i < n
        invariant
            i <= n == lit@.len(),
            from + n <= slen == s@.len(),
            piece == s@.subrange(from as int, from + lit@.len()),
            forall|k: int| 0 <= k < i ==> piece[k] == lit@[k],
        decreases n - i,
    {
        if s[from + i] != lit.get_char(i) {
            assert(piece[i as int] != lit@[i as int]);
            return false;
        }
        assert(piece[i as int] == lit@[i as int]);
        i += 1;
    }
    assert(piece =~= lit@);
    true
}

/// Copies the characters of `s` between `from` and `to` into a fresh vector.
pub(crate) fn sub_vec(s: &Vec<char>, from: usize, to: usize) -> (r: Vec<char>)
    requires
        from <= to <= s@.len(),
    ensures
        r@ == s@.subrange(from as int, to as int),
{
    let mut r: Vec<char> = Vec::new();
    let mut i: usize = from;
    let slen = s.len();
    while i < to
        invariant
            from <= i <= to <= slen == s@.len(),
            r@ == s@.subrange(from as int, i as int),
        decreases to - i,
    {
        r.push(s[i]);
        assert(r@ =~= s@.subrange(from as int, i + 1));
        i += 1;
    }
    r
}

/// The character standing for a role in the claims part.
pub open spec fn role_char(r: Role) -> char {
    match r {
        Role::Admin => 'a',
        Role::User => 'u',
    }
}

/// The role a character stands for, `None` for any other character.
pub open spec fn char_role(c: char) -> Option<Role> {
    if c == 'a' {
        Some(Role::Admin)
    } else if c == 'u' {
        Some(Role::User)
    } else {
        None
    }
}

/// The character standing for a token kind.
pub open spec fn typ_char(t: Typ) -> char {
    match t {
        Typ::Access => 'a',
        Typ::Refresh => 'r',
    }
}

/// The token kind a character stands for.
pub open spec fn char_typ(c: char) -> Option<Typ> {
    if c == 'a' {
        Some(Typ::Access)
    } else if c == 'r' {
        Some(Typ::Refresh)
    } else {
        None
    }
}

fn role_char_exec(r: &Role) -> (c: char)
    ensures
        c == role_char(*r),
{
    match r {
        Role::Admin => 'a',
        Role::User => 'u',
    }
}

fn char_role_exec(c: char) -> (r: Option<Role>)
    ensures
        r == char_role(c),
{
    if c == 'a' {
        Some(Role::Admin)
    } else if c == 'u' {
        Some(Role::User)
    } else {
        None
    }
}

fn typ_char_exec(t: Typ) -> (c: char)
    ensures
        c == typ_char(t),
{
    match t {
        Typ::Access => 'a',
        Typ::Refresh => 'r',
    }
}

fn char_typ_exec(c: char) -> (r: Option<Typ>)
    ensures
        r == char_typ(c),
{
    if c == 'a' {
        Some(Typ::Access)
    } else if c == 'r' {
        Some(Typ::Refresh)
    } else {
        None
    }
}

/// A signed 64-bit instant written as its two's-complement bit pattern.
pub open spec fn i64_to_bits(x: int) -> int {
    if x >= 0 {
        x
    } else {
        x + 0x10000000000000000
    }
}

/// The signed value behind a 64-bit two's-complement pattern.
pub open spec fn bits_to_i64(v: int) -> int {
    if v < 0x8000000000000000 {
        v
    } else {
        v - 0x10000000000000000
    }
}

fn i64_to_bits_exec(x: i64) -> (r: u64)
    ensures
        r as int == i64_to_bits(x as int),
{
    if x >= 0 {
        x as u64
    } else {
        let m = -1i64 - x;
        u64::MAX - (m as u64)
    }
}

fn bits_to_i64_exec(v: u64) -> (r: i64)
    ensures
        r as int == bits_to_i64(v as int),
{
    if v < 0x8000000000000000 {
        v as i64
    } else {
        -1i64 - ((u64::MAX - v) as i64)
    }
}

/// The characters standing for a role list, one per role.
pub open spec fn spec_roles(rs: Seq<Role>) -> Seq<char> {
    Seq::new(rs.len(), |i: int| role_char(rs[i]))
}

/// The roles a character sequence stands for, `None` when any character
/// stands for no role.
pub open spec fn spec_roles_val(s: Seq<char>) -> Option<Seq<Role>> {
    if forall|i: int| 0 <= i < s.len() ==> (#[trigger] char_role(s[i])) is Some {
        Some(Seq::new(s.len(), |i: int| char_role(s[i]).unwrap()))
    } else {
        None
    }
}

/// The claims part of a token: every field at a fixed offset, roles last.
pub open spec fn spec_ser_claims(c: ClaimsV) -> Seq<char> {
    "sub="@ + spec_hex(c.sub as int, 32) + "&iat="@ + spec_hex(i64_to_bits(c.iat as int), 16)
        + "&exp="@ + spec_hex(i64_to_bits(c.exp as int), 16) + "&typ="@ + seq![typ_char(
        c.token_type,
    )] + "&jti="@ + spec_hex(c.jti as int, 32) + "&role="@ + spec_roles(c.role)
}

/// Appends the claims part for `c` to `out`.
pub(crate) fn push_claims(out: &mut Vec<char>, c: &Claims)
    ensures
        final(out)@ == old(out)@ + spec_ser_claims(c@),
{
    push_lit(out, "sub=");
    push_hex(out, c.sub(), 32);
    push_lit(out, "&iat=");
    push_hex(out, i64_to_bits_exec(c.iat()) as u128, 16);
    push_lit(out, "&exp=");
    push_hex(out, i64_to_bits_exec(c.exp()) as u128, 16);
    push_lit(out, "&typ=");
    out.push(typ_char_exec(c.typ()));
    push_lit(out, "&jti=");
    push_hex(out, c.jti(), 32);
    push_lit(out, "&role=");
    let roles = c.role();
    let n = roles.len();
    let ghost base = out@;
    let mut j: usize = 0;
    while j < n
        invariant
            j <= n == c@.role.len(),
            roles@ == c@.role,
            out@ == base + spec_roles(c@.role).subrange(0, j as int),
        decreases n - j,
    {
        out.push(role_char_exec(&roles[j]));
        assert(out@ =~= base + spec_roles(c@.role).subrange(0, j + 1));
        j += 1;
    }
    assert(spec_roles(c@.role).subrange(0, n as int) =~= spec_roles(c@.role));
    assert(final(out)@ =~= old(out)@ + spec_ser_claims(c@));
}

/// The claims a claims part stands for: `None` when a field literal is out
/// of place, a number is not hex, a role or kind character is unknown, or
/// the instants violate the payload invariant.
pub open spec fn spec_parse_claims(s: Seq<char>) -> Option<ClaimsV> {
    if s.len() >= 127 && s.subrange(0, 4) == "sub="@ && s.subrange(36, 41) == "&iat="@
        && s.subrange(57, 62) == "&exp="@ && s.subrange(78, 83) == "&typ="@ && s.subrange(84, 89)
        == "&jti="@ && s.subrange(121, 127) == "&role="@ {
        match (spec_hex_val(s.subrange(4, 36)), spec_hex_val(s.subrange(41, 57)), spec_hex_val(
            s.subrange(62, 78),
        ), char_typ(s[83]), spec_hex_val(s.subrange(89, 121)), spec_roles_val(
            s.subrange(127, s.len() as int),
        )) {
            (Some(sub), Some(iat), Some(exp), Some(t), Some(jti), Some(roles)) => {
                let iat_i = bits_to_i64(iat);
                let exp_i = bits_to_i64(exp);
                if iat_i <= exp_i {
                    Some(
                        ClaimsV {
                            sub: sub as u128,
                            exp: exp_i as i64,
                            iat: iat_i as i64,
                            token_type: t,
                            jti: jti as u128,
                            role: roles,
                        },
                    )
                } else {
                    None
                }
            },
            _ => None,
        }
    } else {
        None
    }
}

/// Reads a claims part back into a payload; inverse of `push_claims`.
pub(crate) fn parse_claims(s: &Vec<char>) -> (r: Option<Claims>)
    ensures
        match r {
            Some(c) => spec_parse_claims(s@) == Some(c@),
            None => spec_parse_claims(s@) is None,
        },
{
    let n = s.len();
    if n < 127 {
        return None;
    }
    proof {
        reveal_strlit("sub=");
        reveal_strlit("&iat=");
        reveal_strlit("&exp=");
        reveal_strlit("&typ=");
        reveal_strlit("&jti=");
        reveal_strlit("&role=");
    }
    if !match_lit(s, 0, "sub=") || !match_lit(s, 36, "&iat=") || !match_lit(s, 57, "&exp=")
        || !match_lit(s, 78, "&typ=") || !match_lit(s, 84, "&jti=") || !match_lit(
        s,
        121,
        "&role=",
    ) {
        return None;
    }
    let sub = match parse_hex(s, 4, 32) {
        Some(v) => v,
        None => {
            return None;
        },
    };
    let iat_b = match parse_hex(s, 41, 16) {
        Some(v) => v,
        None => {
            return None;
        },
    };
    let exp_b = match parse_hex(s, 62, 16) {
        Some(v) => v,
        None => {
            return None;
        },
    };
    let token_type = match char_typ_exec(s[83]) {
        Some(t) => t,
        None => {
            return None;
        },
    };
    let jti = match parse_hex(s, 89, 32) {
        Some(v) => v,
        None => {
            return None;
        },
    };
    let mut roles: Vec<Role> = Vec::new();
    let mut j: usize = 127;
    while j < n
        invariant
            127 <= j <= n == s@.len(),
            roles@.len() == j - 127,
            forall|k: int| 0 <= k < roles@.len() ==> char_role(s@[127 + k]) == Some(roles@[k]),
        decreases n - j,
    {
        match char_role_exec(s[j]) {
            Some(r) => roles.push(r),
            None => {
                proof {
                    let region = s@.subrange(127, n as int);
                    assert(char_role(region[j - 127]) is None);
                    assert(spec_roles_val(region) is None);
                }
                return None;
            },
        }
        j += 1;
    }
    proof {
        let region = s@.subrange(127, n as int);
        assert(forall|i: int|
            0 <= i < region.len() ==> (#[trigger] char_role(region[i])) == Some(roles@[i]));
        assert(spec_roles_val(region) == Some(roles@)) by {
            assert(Seq::new(region.len(), |i: int| char_role(region[i]).unwrap()) =~= roles@);
        }
        lemma_hex_val_bound(s@.subrange(41, 57));
        lemma_hex_val_bound(s@.subrange(62, 78));
        lemma_pow16_16();
    }
    let iat = bits_to_i64_exec(iat_b as u64);
    let exp = bits_to_i64_exec(exp_b as u64);
    if iat > exp {
        return None;
    }
    let c = Claims::new(sub, exp, iat, token_type, jti, roles);
    Some(c)
}

/// What HMAC-SHA-256 under jsonwebtoken returns for a message and key: the
/// base64url text of the tag, a pure function of its two arguments.
pub uninterp spec fn hs256_sig(msg: Seq<char>, secret: Seq<u8>) -> Seq<char>;

/// Relies on jsonwebtoken's `crypto::sign` with `Algorithm::HS256`: the tag
/// depends on the message and key alone, and signing under an HMAC key
/// accepts any key and message, so the call cannot fail. This holds with
/// jsonwebtoken's `rust_crypto` provider as the manifest pins it; enabling
/// a second provider feature would make provider selection itself fail.
#[verifier::external_body]
fn hs256_sign(msg: &Vec<char>, secret: &[u8]) -> (r: Vec<char>)
    ensures
        r@ == hs256_sig(msg@, secret@),
{
    let text: String = msg.iter().collect();
    let sig = jsonwebtoken::crypto::sign(
        text.as_bytes(),
        &jsonwebtoken::EncodingKey::from_secret(secret),
        jsonwebtoken::Algorithm::HS256,
    ).unwrap();
    sig.chars().collect()
}

/// The characters of a text, in order.
pub(crate) fn str_to_chars(s: &str) -> (r: Vec<char>)
    ensures
        r@ == s@,
{
    let n = s.unicode_len();
    let mut r: Vec<char> = Vec::new();
    let mut i: usize = 0;
    while i < n
        invariant
            i <= n == s@.len(),
            r@ == s@.subrange(0, i as int),
        decreases n - i,
    {
        r.push(s.get_char(i));
        assert(r@ =~= s@.subrange(0, i + 1));
        i += 1;
    }
    assert(s@.subrange(0, n as int) =~= s@);
    r
}

/// Relies on String's FromIterator over characters: collecting characters
/// yields the text whose characters they are.
#[verifier::external_body]
pub(crate) fn chars_to_string(v: &Vec<char>) -> (r: String)
    ensures
        r@ == v@,
{
    v.iter().collect()
}

/// True exactly when the two vectors hold the same characters.
pub(crate) fn vec_chars_eq(a: &Vec<char>, b: &Vec<char>) -> (r: bool)
    ensures
        r == (a@ == b@),
{
    let n = a.len();
    if n != b.len() {
        assert(a@ != b@);
        return false;
    }
    let mut i: usize = 0;
    while i < n
        invariant
            i <= n == a@.len() == b@.len(),
            forall|k: int| 0 <= k < i ==> a@[k] == b@[k],
        decreases n - i,
    {
        if a[i] != b[i] {
            return false;
        }
        i += 1;
    }
    assert(a@ =~= b@);
    true
}

/// The index of the first separator dot, if any.
pub open spec fn spec_find_dot(s: Seq<char>) -> Option<int>
    decreases s.len(),
{
    if s.len() == 0 {
        None
    } else if s[0] == '.' {
        Some(0)
    } else {
        match spec_find_dot(s.drop_first()) {
            Some(i) => Some(i + 1),
            None => None,
        }
    }
}

proof fn lemma_find_dot_at(s: Seq<char>, i: int)
    requires
        0 <= i < s.len(),
        s[i] == '.',
        forall|k: int| 0 <= k < i ==> s[k] != '.',
    ensures
        spec_find_dot(s) == Some(i),
    decreases i,
{
    if i > 0 {
        lemma_find_dot_at(s.drop_first(), i - 1);
    }
}

proof fn lemma_find_dot_none(s: Seq<char>)
    requires
        forall|k: int| 0 <= k < s.len() ==> s[k] != '.',
    ensures
        spec_find_dot(s) is None,
    decreases s.len(),
{
    if s.len() > 0 {
        lemma_find_dot_none(s.drop_first());
    }
}

/// The index of the first dot at or after `from`, if any.
fn find_dot_from(t: &Vec<char>, from: usize) -> (r: Option<usize>)
    requires
        from <= t@.len(),
    ensures
        match r {
            Some(i) => from <= i < t@.len() && t@[i as int] == '.' && forall|k: int|
                from <= k < i ==> t@[k] != '.',
            None => forall|k: int| from <= k < t@.len() ==> t@[k] != '.',
        },
{
    let n = t.len();
    let mut i: usize = from;
    while i < n
        invariant
            from <= i <= n == t@.len(),
            forall|k: int| from <= k < i ==> t@[k] != '.',
        decreases n - i,
    {
        if t[i] == '.' {
            return Some(i);
        }
        i += 1;
    }
    None
}

/// The signed region of a token for payload `c`: the header and claims part.
pub open spec fn spec_msg(c: ClaimsV) -> Seq<char> {
    "hs1."@ + spec_ser_claims(c)
}

/// The whole token for payload `c` under `secret`.
pub open spec fn spec_encode(c: ClaimsV, secret: Seq<u8>) -> Seq<char> {
    spec_msg(c) + seq!['.'] + hs256_sig(spec_msg(c), secret)
}

/// What decoding a token text yields: the payload it carries, or why it is
/// rejected. Expiry is deliberately not consulted here.
pub open spec fn spec_decode(t: Seq<char>, secret: Seq<u8>) -> Result<ClaimsV, TokenError> {
    if t.len() < 4 || t.subrange(0, 4) != "hs1."@ {
        Err(TokenError::Malformed)
    } else {
        match spec_find_dot(t.skip(4)) {
            None => Err(TokenError::Malformed),
            Some(d) => match spec_parse_claims(t.subrange(4, 4 + d)) {
                None => Err(TokenError::Malformed),
                Some(c) => if t.skip(4 + d + 1) == hs256_sig(t.subrange(0, 4 + d), secret) {
                    Ok(c)
                } else {
                    Err(TokenError::SignatureInvalid)
                },
            },
        }
    }
}

/// Signs the claims part for `c` and assembles the token text.
pub fn encode_claims(c: &Claims, secret: &[u8]) -> (r: Vec<char>)
    ensures
        r@ == spec_encode(c@, secret@),
{
    let mut msg: Vec<char> = Vec::new();
    push_lit(&mut msg, "hs1.");
    push_claims(&mut msg, c);
    let mut sig = hs256_sign(&msg, secret);
    let ghost msg_view = msg@;
    let mut out = msg;
    out.push('.');
    out.append(&mut sig);
    proof {
        assert(out@ =~= msg_view + seq!['.'] + hs256_sig(msg_view, secret@));
    }
    out
}

/// Reads a token text back: checks the header, the claims part, and the
/// signature over everything before the second separator.
pub fn decode_claims(t: &Vec<char>, secret: &[u8]) -> (r: Result<Claims, TokenError>)
    ensures
        match r {
            Ok(c) => spec_decode(t@, secret@) == Ok::<ClaimsV, TokenError>(c@),
            Err(e) => spec_decode(t@, secret@) == Err::<ClaimsV, TokenError>(e),
        },
{
    let n = t.len();
    proof {
        reveal_strlit("hs1.");
    }
    if n < 4 || !match_lit(t, 0, "hs1.") {
        return Err(TokenError::Malformed);
    }
    let dot = match find_dot_from(t, 4) {
        Some(i) => i,
        None => {
            proof {
                assert forall|k: int| 0 <= k < t@.skip(4).len() implies t@.skip(4)[k] != '.' by {
                    assert(t@.skip(4)[k] == t@[4 + k]);
                }
                lemma_find_dot_none(t@.skip(4));
            }
            return Err(TokenError::Malformed);
        },
    };
    proof {
        assert(t@.skip(4)[dot - 4] == t@[dot as int]);
        assert forall|k: int| 0 <= k < dot - 4 implies t@.skip(4)[k] != '.' by {
            assert(t@.skip(4)[k] == t@[4 + k]);
        }
        lemma_find_dot_at(t@.skip(4), dot - 4);
    }
    let claims_part = sub_vec(t, 4, dot);
    let c = match parse_claims(&claims_part) {
        Some(c) => c,
        None => {
            return Err(TokenError::Malformed);
        },
    };
    let msg = sub_vec(t, 0, dot);
    let expected = hs256_sign(&msg, secret);
    let sig = sub_vec(t, dot + 1, n);
    proof {
        assert(sig@ =~= t@.skip(dot + 1));
    }
    if vec_chars_eq(&sig, &expected) {
        Ok(c)
    } else {
        Err(TokenError::SignatureInvalid)
    }
}

/// A claims part only parses into a payload whose issue instant does not
/// lie after its expiry.
pub proof fn lemma_parse_wf(s: Seq<char>)
    ensures
        spec_parse_claims(s) matches Some(c) ==> c.iat <= c.exp,
{
    if spec_parse_claims(s) is Some {
        lemma_hex_val_bound(s.subrange(41, 57));
        lemma_hex_val_bound(s.subrange(62, 78));
        lemma_pow16_16();
    }
}

/// A token only decodes into a payload whose issue instant does not lie
/// after its expiry.
pub proof fn lemma_decode_wf(t: Seq<char>, secret: Seq<u8>)
    ensures
        spec_decode(t, secret) matches Ok(c) ==> c.iat <= c.exp,
{
    if spec_decode(t, secret) is Ok {
        let d = spec_find_dot(t.skip(4)).unwrap();
        lemma_parse_wf(t.subrange(4, 4 + d));
    }
}

/// Reading a serialized claims part back recovers the payload.
pub proof fn lemma_parse_ser(c: ClaimsV)
    requires
        c.iat <= c.exp,
    ensures
        spec_parse_claims(spec_ser_claims(c)) == Some(c),
{
    reveal_strlit("sub=");
    reveal_strlit("&iat=");
    reveal_strlit("&exp=");
    reveal_strlit("&typ=");
    reveal_strlit("&jti=");
    reveal_strlit("&role=");
    let h1 = spec_hex(c.sub as int, 32);
    let h2 = spec_hex(i64_to_bits(c.iat as int), 16);
    let h3 = spec_hex(i64_to_bits(c.exp as int), 16);
    let h4 = spec_hex(c.jti as int, 32);
    let rr = spec_roles(c.role);
    crate::hexfmt::lemma_spec_hex_len(c.sub as int, 32);
    crate::hexfmt::lemma_spec_hex_len(i64_to_bits(c.iat as int), 16);
    crate::hexfmt::lemma_spec_hex_len(i64_to_bits(c.exp as int), 16);
    crate::hexfmt::lemma_spec_hex_len(c.jti as int, 32);
    let s = spec_ser_claims(c);
    assert(s.len() == 127 + c.role.len());
    assert(s.subrange(0, 4) =~= "sub="@);
    assert(s.subrange(4, 36) =~= h1);
    assert(s.subrange(36, 41) =~= "&iat="@);
    assert(s.subrange(41, 57) =~= h2);
    assert(s.subrange(57, 62) =~= "&exp="@);
    assert(s.subrange(62, 78) =~= h3);
    assert(s.subrange(78, 83) =~= "&typ="@);
    assert(s[83] == typ_char(c.token_type));
    assert(s.subrange(84, 89) =~= "&jti="@);
    assert(s.subrange(89, 121) =~= h4);
    assert(s.subrange(121, 127) =~= "&role="@);
    assert(s.subrange(127, s.len() as int) =~= rr);
    lemma_pow16_32();
    lemma_pow16_16();
    lemma_hex_roundtrip(c.sub as int, 32);
    lemma_hex_roundtrip(i64_to_bits(c.iat as int), 16);
    lemma_hex_roundtrip(i64_to_bits(c.exp as int), 16);
    lemma_hex_roundtrip(c.jti as int, 32);
    assert(char_typ(typ_char(c.token_type)) == Some(c.token_type));
    assert forall|i: int| 0 <= i < rr.len() implies (#[trigger] char_role(rr[i])) == Some(
        c.role[i],
    ) by {
        assert(rr[i] == role_char(c.role[i]));
    }
    assert(spec_roles_val(rr) == Some(c.role)) by {
        assert(Seq::new(rr.len(), |i: int| char_role(rr[i]).unwrap()) =~= c.role);
    }
    assert(bits_to_i64(i64_to_bits(c.iat as int)) == c.iat as int);
    assert(bits_to_i64(i64_to_bits(c.exp as int)) == c.exp as int);
    assert(spec_parse_claims(s) == Some(c));
}

/// No character of a serialized claims part is a separator dot.
pub proof fn lemma_ser_no_dot(c: ClaimsV)
    ensures
        forall|i: int| 0 <= i < spec_ser_claims(c).len() ==> spec_ser_claims(c)[i] != '.',
{
    reveal_strlit("sub=");
    reveal_strlit("&iat=");
    reveal_strlit("&exp=");
    reveal_strlit("&typ=");
    reveal_strlit("&jti=");
    reveal_strlit("&role=");
    let h1 = spec_hex(c.sub as int, 32);
    let h2 = spec_hex(i64_to_bits(c.iat as int), 16);
    let h3 = spec_hex(i64_to_bits(c.exp as int), 16);
    let h4 = spec_hex(c.jti as int, 32);
    let rr = spec_roles(c.role);
    crate::hexfmt::lemma_spec_hex_len(c.sub as int, 32);
    crate::hexfmt::lemma_spec_hex_len(i64_to_bits(c.iat as int), 16);
    crate::hexfmt::lemma_spec_hex_len(i64_to_bits(c.exp as int), 16);
    crate::hexfmt::lemma_spec_hex_len(c.jti as int, 32);
    lemma_hex_no_dot(c.sub as int, 32);
    lemma_hex_no_dot(i64_to_bits(c.iat as int), 16);
    lemma_hex_no_dot(i64_to_bits(c.exp as int), 16);
    lemma_hex_no_dot(c.jti as int, 32);
    let s = spec_ser_claims(c);
    assert forall|i: int| 0 <= i < s.len() implies s[i] != '.' by {
        if i < 4 {
            assert(s[i] == "sub="@[i]);
        } else if i < 36 {
            assert(s[i] == h1[i - 4]);
        } else if i < 41 {
            assert(s[i] == "&iat="@[i - 36]);
        } else if i < 57 {
            assert(s[i] == h2[i - 41]);
        } else if i < 62 {
            assert(s[i] == "&exp="@[i - 57]);
        } else if i < 78 {
            assert(s[i] == h3[i - 62]);
        } else if i < 83 {
            assert(s[i] == "&typ="@[i - 78]);
        } else if i < 84 {
            assert(s[i] == typ_char(c.token_type));
        } else if i < 89 {
            assert(s[i] == "&jti="@[i - 84]);
        } else if i < 121 {
            assert(s[i] == h4[i - 89]);
        } else if i < 127 {
            assert(s[i] == "&role="@[i - 121]);
        } else {
            assert(s[i] == role_char(c.role[i - 127]));
        }
    }
}

/// Decoding inverts encoding: a token minted for a well-formed payload under
/// a secret decodes back to that payload under the same secret.
pub proof fn lemma_codec_roundtrip(c: ClaimsV, secret: Seq<u8>)
    requires
        c.iat <= c.exp,
    ensures
        spec_decode(spec_encode(c, secret), secret) == Ok::<ClaimsV, TokenError>(c),
{
    reveal_strlit("hs1.");
    let body = spec_ser_claims(c);
    let m = spec_msg(c);
    let sig = hs256_sig(m, secret);
    let t = spec_encode(c, secret);
    lemma_parse_ser(c);
    lemma_ser_no_dot(c);
    assert(body.len() >= 127) by {
        crate::hexfmt::lemma_spec_hex_len(c.sub as int, 32);
        crate::hexfmt::lemma_spec_hex_len(i64_to_bits(c.iat as int), 16);
        crate::hexfmt::lemma_spec_hex_len(i64_to_bits(c.exp as int), 16);
        crate::hexfmt::lemma_spec_hex_len(c.jti as int, 32);
    }
    assert(t.len() == 4 + body.len() + 1 + sig.len());
    assert(t.subrange(0, 4) =~= "hs1."@);
    let rest = t.skip(4);
    assert(rest[body.len() as int] == '.');
    assert forall|k: int| 0 <= k < body.len() implies rest[k] != '.' by {
        assert(rest[k] == body[k]);
    }
    lemma_find_dot_at(rest, body.len() as int);
    let d = body.len() as int;
    assert(t.subrange(4, 4 + d) =~= body);
    assert(t.subrange(0, 4 + d) =~= m);
    assert(t.skip(4 + d + 1) =~= sig);
}

} // verus!

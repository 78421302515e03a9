//! Authentication by bearer token: the token is taken from the
//! `Authorization` header, its payload segment is base64-decoded, and the
//! claims read from it name the user.

use vstd::prelude::*;

use crate::api::auth::models::AuthUser;
use crate::headers::{header_text, value_bytes, RequestHeaders};

verus! {

/// The claims that a token's payload carries.
pub struct JWTClaims {
    /// The id of the user the token was issued to.
    pub user_id: i32,
    /// The user's name.
    pub username: String,
    /// The id of the user's company.
    pub company_id: i32,
}

/// Why a request is not authenticated; each answers with 401 Unauthorized.
#[derive(Debug, PartialEq, Eq, Structural)]
pub enum AuthError {
    /// The request has no `Authorization` header.
    MissingHeader,
    /// The header holds bytes other than visible ASCII.
    NotText,
    /// The header does not start with `Bearer `.
    NotBearer,
    /// The token does not have exactly three `.`-separated segments.
    MalformedToken,
    /// The payload segment is not base64 (standard alphabet, no padding).
    InvalidPayloadEncoding,
    /// The payload does not hold the expected claims.
    InvalidClaims,
}

/// The bytes of `Bearer `.
pub open spec fn bearer_prefix() -> Seq<u8> {
    seq![66u8, 101u8, 97u8, 114u8, 101u8, 114u8, 32u8]
}

/// Whether `s` starts with `prefix`.
pub open spec fn starts_with(s: Seq<u8>, prefix: Seq<u8>) -> bool {
    prefix.len() <= s.len() && s.take(prefix.len() as int) == prefix
}

/// `s` with every leading repetition of `Bearer ` removed.
pub open spec fn trim_bearer(s: Seq<u8>) -> Seq<u8>
    decreases s.len(),
{
    if starts_with(s, bearer_prefix()) {
        trim_bearer(s.skip(7))
    } else {
        s
    }
}

/// The pieces of `s` between the occurrences of `sep`, in order: one more
/// piece than there are separators, empty pieces included.
pub open spec fn split_on(s: Seq<u8>, sep: u8) -> Seq<Seq<u8>>
    decreases s.len(),
{
    if s.len() == 0 {
        seq![Seq::<u8>::empty()]
    } else {
        let init = split_on(s.drop_last(), sep);
        if s.last() == sep {
            init.push(Seq::<u8>::empty())
        } else {
            init.update(init.len() - 1, init.last().push(s.last()))
        }
    }
}

/// The pieces joined back together with `sep` between them.
pub open spec fn join_with(pieces: Seq<Seq<u8>>, sep: u8) -> Seq<u8>
    decreases pieces.len(),
{
    if pieces.len() <= 1 {
        if pieces.len() == 1 {
            pieces[0]
        } else {
            Seq::<u8>::empty()
        }
    } else {
        join_with(pieces.drop_last(), sep).push(sep) + pieces.last()
    }
}

/// The byte `.` that separates a token's segments.
pub open spec fn dot() -> u8 {
    46u8
}

/// The payload segment of the bearer token in an `Authorization` header, or
/// why there is none: the header must be present, visible ASCII and start
/// with `Bearer `; after every leading `Bearer ` is removed, the token must
/// have exactly three `.`-separated segments, and the second is the payload.
pub open spec fn bearer_payload_segment(authorization: Option<Seq<u8>>) -> Result<
    Seq<u8>,
    AuthError,
> {
    match authorization {
        None => Err(AuthError::MissingHeader),
        Some(b) => if header_text(b) is None {
            Err(AuthError::NotText)
        } else if !starts_with(b, bearer_prefix()) {
            Err(AuthError::NotBearer)
        } else if split_on(trim_bearer(b), dot()).len() != 3 {
            Err(AuthError::MalformedToken)
        } else {
            Ok(split_on(trim_bearer(b), dot())[1])
        },
    }
}

/// Whether the bytes of `s` from `at` on start with `Bearer `.
fn bearer_at(s: &[u8], at: usize) -> (r: bool)
    requires
        at <= s@.len(),
    ensures
        r == starts_with(s@.skip(at as int), bearer_prefix()),
{
    let len: usize = s.len();
    if len - at < 7 {
        return false;
    }
    let r = s[at] == 66 && s[at + 1] == 101 && s[at + 2] == 97 && s[at + 3] == 114 && s[at + 4]
        == 101 && s[at + 5] == 114 && s[at + 6] == 32;
    assert(r == (s@.skip(at as int).take(7) =~= bearer_prefix()));
    r
}

/// Splits `s` at every `sep`, as `str::split` with a one-character pattern
/// does.
pub fn split_bytes(s: &[u8], sep: u8) -> (r: Vec<Vec<u8>>)
    ensures
        r@.map_values(|p: Vec<u8>| p@) == split_on(s@, sep),
{
    let len: usize = s.len();
    let mut pieces: Vec<Vec<u8>> = Vec::new();
    let mut current: Vec<u8> = Vec::new();
    let mut i: usize = 0;
    assert(s@.take(0) =~= Seq::<u8>::empty());
    while i < len
        invariant
            i <= len,
            len == s@.len(),
            pieces@.map_values(|p: Vec<u8>| p@).push(current@) == split_on(s@.take(i as int), sep),
        decreases len - i,
    {
        let ghost before = pieces@.map_values(|p: Vec<u8>| p@).push(current@);
        let b: u8 = s[i];
        assert(s@.take(i + 1).drop_last() =~= s@.take(i as int));
        assert(s@.take(i + 1).last() == b);
        if b == sep {
            let mut finished: Vec<u8> = Vec::new();
            std::mem::swap(&mut finished, &mut current);
            pieces.push(finished);
            assert(pieces@.map_values(|p: Vec<u8>| p@).push(current@) =~= before.push(
                Seq::<u8>::empty(),
            ));
        } else {
            current.push(b);
            assert(pieces@.map_values(|p: Vec<u8>| p@).push(current@) =~= before.update(
                before.len() - 1,
                before.last().push(b),
            ));
        }
        i = i + 1;
    }
    assert(s@.take(len as int) =~= s@);
    pieces.push(current);
    assert(pieces@.map_values(|p: Vec<u8>| p@) =~= split_on(s@, sep));
    pieces
}

/// Takes the payload segment of the bearer token out of the request's
/// `Authorization` header.
pub fn bearer_token_segment(headers: &RequestHeaders) -> (r: Result<Vec<u8>, AuthError>)
    ensures
        r matches Ok(seg) ==> bearer_payload_segment(value_bytes(headers.authorization)) == Ok::<
            Seq<u8>,
            AuthError,
        >(seg@),
        r matches Err(e) ==> bearer_payload_segment(value_bytes(headers.authorization)) == Err::<
            Seq<u8>,
            AuthError,
        >(e),
{
    let header: &Vec<u8> = match &headers.authorization {
        None => {
            return Err(AuthError::MissingHeader);
        },
        Some(h) => h,
    };
    let bytes: &[u8] = header.as_slice();
    if crate::headers::header_value_to_str(bytes).is_none() {
        return Err(AuthError::NotText);
    }
    assert(bytes@.skip(0) =~= bytes@);
    if !bearer_at(bytes, 0) {
        return Err(AuthError::NotBearer);
    }
    let len: usize = bytes.len();
    let mut start: usize = 0;
    while bearer_at(bytes, start)
        invariant
            start <= len,
            len == bytes@.len(),
            trim_bearer(bytes@.skip(start as int)) == trim_bearer(bytes@),
        decreases len - start,
    {
        assert(bytes@.skip(start as int).skip(7) =~= bytes@.skip(start + 7));
        start = start + 7;
    }
    let mut token: Vec<u8> = Vec::new();
    let mut k: usize = start;
    while k < len
        invariant
            start <= k <= len,
            len == bytes@.len(),
            token@ =~= bytes@.subrange(start as int, k as int),
        decreases len - k,
    {
        token.push(bytes[k]);
        k = k + 1;
    }
    assert(token@ =~= bytes@.skip(start as int));
    let mut parts = split_bytes(token.as_slice(), 46);
    if parts.len() != 3 {
        return Err(AuthError::MalformedToken);
    }
    assert(parts@.map_values(|p: Vec<u8>| p@)[1] == parts@[1]@);
    Ok(parts.remove(1))
}


/// The error type of base64 decoding, carried through opaquely.
#[verifier::external_type_specification]
#[verifier::external_body]
pub struct ExDecodeError(base64::DecodeError);

/// What decoding `input` as base64 with the standard alphabet and no padding
/// gives: the decoded bytes, or `None` when `input` is not such an encoding.
pub uninterp spec fn standard_no_pad_decode(input: Seq<u8>) -> Option<Seq<u8>>;

/// `base64::engine::general_purpose::STANDARD_NO_PAD.decode`: the contract
/// claims that the call succeeds exactly when the name
/// `standard_no_pad_decode` has a value for the input, and that it then
/// returns that value; the result depends on the input bytes alone.
#[verifier::external_body]
fn decode_standard_no_pad(input: &[u8]) -> (r: Result<Vec<u8>, base64::DecodeError>)
    ensures
        r is Ok <==> standard_no_pad_decode(input@) is Some,
        r matches Ok(v) ==> standard_no_pad_decode(input@) == Some(v@),
{
    base64::Engine::decode(&base64::engine::general_purpose::STANDARD_NO_PAD, input)
}

/// The payload given what decoding its segment gave: the decoded bytes, or
/// `InvalidPayloadEncoding` when the segment was not base64.
pub open spec fn payload_from_decoded(decoded: Option<Seq<u8>>) -> Result<Seq<u8>, AuthError> {
    match decoded {
        Some(p) => Ok(p),
        None => Err(AuthError::InvalidPayloadEncoding),
    }
}

/// The decoded payload of the bearer token in an `Authorization` header, or
/// why there is none.
pub open spec fn bearer_payload(authorization: Option<Seq<u8>>) -> Result<Seq<u8>, AuthError> {
    match bearer_payload_segment(authorization) {
        Ok(seg) => payload_from_decoded(standard_no_pad_decode(seg)),
        Err(e) => Err(e),
    }
}

/// The payload given what decoding its segment gave (`None` when the
/// segment was not base64).
pub fn payload_result(decoded: Option<Vec<u8>>) -> (r: Result<Vec<u8>, AuthError>)
    ensures
        r matches Ok(p) ==> decoded matches Some(d) && p@ == d@,
        r matches Err(e) ==> decoded is None && e == AuthError::InvalidPayloadEncoding,
        decoded is Some ==> r is Ok,
{
    match decoded {
        Some(d) => Ok(d),
        None => Err(AuthError::InvalidPayloadEncoding),
    }
}

/// Takes the bearer token out of the request's `Authorization` header and
/// decodes its payload segment: the bytes that hold the token's claims.
pub fn jwt_payload(headers: &RequestHeaders) -> (r: Result<Vec<u8>, AuthError>)
    ensures
        r matches Ok(p) ==> bearer_payload(value_bytes(headers.authorization)) == Ok::<
            Seq<u8>,
            AuthError,
        >(p@),
        r matches Err(e) ==> bearer_payload(value_bytes(headers.authorization)) == Err::<
            Seq<u8>,
            AuthError,
        >(e),
        bearer_payload_segment(value_bytes(headers.authorization)) matches Ok(seg)
            ==> match standard_no_pad_decode(seg) {
            Some(d) => r matches Ok(p) && p@ == d,
            None => r == Err::<Vec<u8>, AuthError>(AuthError::InvalidPayloadEncoding),
        },
{
    let segment = match bearer_token_segment(headers) {
        Ok(seg) => seg,
        Err(e) => {
            return Err(e);
        },
    };
    let decoded = match decode_standard_no_pad(segment.as_slice()) {
        Ok(payload) => Some(payload),
        Err(_) => None,
    };
    payload_result(decoded)
}

/// The user that a token's claims name, given the claims read from its
/// payload (`None` when the payload did not hold them): the user's id is the
/// claims' `user_id`.
pub fn authenticate(claims: Option<JWTClaims>) -> (r: Result<AuthUser, AuthError>)
    ensures
        claims is None ==> r == Err::<AuthUser, AuthError>(AuthError::InvalidClaims),
        claims matches Some(c) ==> r == Ok::<AuthUser, AuthError>(AuthUser { id: c.user_id }),
{
    match claims {
        Some(c) => Ok(AuthUser { id: c.user_id }),
        None => Err(AuthError::InvalidClaims),
    }
}

/// `n` copies of `Bearer ` one after the other.
pub open spec fn repeated_prefix(n: nat) -> Seq<u8>
    decreases n,
{
    if n == 0 {
        Seq::<u8>::empty()
    } else {
        bearer_prefix() + repeated_prefix((n - 1) as nat)
    }
}

/// Removing the leading `Bearer `s leaves a token that no longer starts with
/// `Bearer `, and what was removed is a whole number of copies of it.
pub proof fn law_trim_bearer(s: Seq<u8>)
    ensures
        !starts_with(trim_bearer(s), bearer_prefix()),
        exists|n: nat| s == repeated_prefix(n) + trim_bearer(s),
    decreases s.len(),
{
    if starts_with(s, bearer_prefix()) {
        law_trim_bearer(s.skip(7));
        let n = choose|n: nat| s.skip(7) == repeated_prefix(n) + trim_bearer(s.skip(7));
        assert(s =~= repeated_prefix(n + 1) + trim_bearer(s)) by {
            assert(s =~= s.take(7) + s.skip(7));
            assert(repeated_prefix(n + 1) =~= bearer_prefix() + repeated_prefix(n));
        }
    } else {
        assert(s =~= repeated_prefix(0) + trim_bearer(s));
    }
}

proof fn lemma_join_extend_last(pieces: Seq<Seq<u8>>, sep: u8, b: u8)
    requires
        pieces.len() >= 1,
    ensures
        join_with(pieces.update(pieces.len() - 1, pieces.last().push(b)), sep) == join_with(
            pieces,
            sep,
        ).push(b),
{
    let updated = pieces.update(pieces.len() - 1, pieces.last().push(b));
    if pieces.len() > 1 {
        assert(updated.drop_last() =~= pieces.drop_last());
        assert(join_with(updated, sep) =~= join_with(pieces, sep).push(b));
    }
}

/// Splitting text at a separator keeps everything: joining the pieces back
/// with the separator gives the text again, and no piece holds the separator.
pub proof fn law_split_join(s: Seq<u8>, sep: u8)
    ensures
        join_with(split_on(s, sep), sep) == s,
        split_on(s, sep).len() >= 1,
        forall|i: int, j: int|
            0 <= i < split_on(s, sep).len() && 0 <= j < split_on(s, sep)[i].len() ==> split_on(
                s,
                sep,
            )[i][j] != sep,
    decreases s.len(),
{
    if s.len() == 0 {
        assert(join_with(split_on(s, sep), sep) =~= s);
    } else {
        let init = split_on(s.drop_last(), sep);
        law_split_join(s.drop_last(), sep);
        if s.last() == sep {
            assert(split_on(s, sep).drop_last() =~= init);
            assert(join_with(split_on(s, sep), sep) =~= s);
        } else {
            lemma_join_extend_last(init, sep, s.last());
            assert(join_with(split_on(s, sep), sep) =~= s);
            assert forall|i: int, j: int|
                0 <= i < split_on(s, sep).len() && 0 <= j < split_on(s, sep)[i].len() implies split_on(
                s,
                sep,
            )[i][j] != sep by {
                if i < init.len() - 1 {
                    assert(split_on(s, sep)[i] == init[i]);
                } else if j < init.last().len() {
                    assert(split_on(s, sep)[i][j] == init.last()[j]);
                }
            }
        }
    }
}


/// Whether no byte of `s` is `sep`.
pub open spec fn free_of(s: Seq<u8>, sep: u8) -> bool {
    forall|i: int| 0 <= i < s.len() ==> #[trigger] s[i] != sep
}

proof fn lemma_split_append_free(x: Seq<u8>, y: Seq<u8>, sep: u8)
    requires
        free_of(y, sep),
    ensures
        split_on(x + y, sep) == split_on(x, sep).update(
            split_on(x, sep).len() - 1,
            split_on(x, sep).last() + y,
        ),
        split_on(x, sep).len() >= 1,
    decreases y.len(),
{
    law_split_join(x, sep);
    if y.len() == 0 {
        assert(x + y =~= x);
        assert(split_on(x, sep).last() + y =~= split_on(x, sep).last());
        assert(split_on(x, sep).update(split_on(x, sep).len() - 1, split_on(x, sep).last())
            =~= split_on(x, sep));
    } else {
        let y0 = y.drop_last();
        assert(free_of(y0, sep)) by {
            assert forall|i: int| 0 <= i < y0.len() implies #[trigger] y0[i] != sep by {
                assert(y0[i] == y[i]);
            }
        }
        lemma_split_append_free(x, y0, sep);
        let whole = split_on(x, sep);
        let init = split_on(x + y0, sep);
        assert((x + y).drop_last() =~= x + y0);
        assert((x + y).last() == y.last());
        assert(y.last() != sep);
        assert(init.len() == whole.len());
        assert(init.last() == whole.last() + y0);
        assert(init.last().push(y.last()) =~= whole.last() + y);
        assert(split_on(x + y, sep) == init.update(init.len() - 1, init.last().push(y.last())));
        assert(split_on(x + y, sep) =~= split_on(x, sep).update(
            split_on(x, sep).len() - 1,
            split_on(x, sep).last() + y,
        ));
    }
}

proof fn lemma_split_after_sep(x: Seq<u8>, sep: u8)
    ensures
        split_on(x.push(sep), sep) == split_on(x, sep).push(Seq::<u8>::empty()),
{
    assert(x.push(sep).drop_last() =~= x);
}

/// A bearer header made from a token of three `.`-free segments is read back
/// to the token's middle segment: `Bearer a.b.c` gives `b`, provided the
/// header is visible ASCII and the token does not itself start with
/// `Bearer `.
pub proof fn law_bearer_segment_of_token(a: Seq<u8>, b: Seq<u8>, c: Seq<u8>)
    requires
        free_of(a, dot()),
        free_of(b, dot()),
        free_of(c, dot()),
        header_text(bearer_prefix() + a.push(dot()) + b.push(dot()) + c) is Some,
        !starts_with(a.push(dot()) + b.push(dot()) + c, bearer_prefix()),
    ensures
        bearer_payload_segment(Some(bearer_prefix() + a.push(dot()) + b.push(dot()) + c)) == Ok::<
            Seq<u8>,
            AuthError,
        >(b),
{
    let token = a.push(dot()) + b.push(dot()) + c;
    let header = bearer_prefix() + token;
    assert(header =~= bearer_prefix() + a.push(dot()) + b.push(dot()) + c);
    let e = Seq::<u8>::empty();
    assert(header.take(7) =~= bearer_prefix());
    assert(header.skip(7) =~= token);
    assert(starts_with(header, bearer_prefix()));
    assert(trim_bearer(token) == token);
    assert(trim_bearer(header) == trim_bearer(header.skip(7)));
    lemma_split_append_free(e, a, dot());
    assert(e + a =~= a);
    assert(split_on(e, dot()) =~= seq![e]);
    assert(split_on(a, dot()) =~= seq![a]);
    lemma_split_after_sep(a, dot());
    lemma_split_append_free(a.push(dot()), b, dot());
    assert(a.push(dot()) + b =~= (a.push(dot()) + b));
    assert(split_on(a.push(dot()) + b, dot()) =~= seq![a, b]);
    lemma_split_after_sep(a.push(dot()) + b, dot());
    assert((a.push(dot()) + b).push(dot()) =~= a.push(dot()) + b.push(dot()));
    lemma_split_append_free(a.push(dot()) + b.push(dot()), c, dot());
    assert(split_on(token, dot()) =~= seq![a, b, c]);
}


/// Whatever its length, the payload segment of a bearer token is decoded and
/// nothing else is asked of it: when decoding it gives bytes, those bytes are
/// the payload; when it gives none, the request is refused as badly encoded;
/// and a header without a payload segment is refused for the same reason as
/// before decoding.
pub proof fn law_payload_is_decoded_segment(authorization: Option<Seq<u8>>)
    ensures
        match bearer_payload_segment(authorization) {
            Ok(seg) => match standard_no_pad_decode(seg) {
                Some(d) => bearer_payload(authorization) == Ok::<Seq<u8>, AuthError>(d),
                None => bearer_payload(authorization) == Err::<Seq<u8>, AuthError>(
                    AuthError::InvalidPayloadEncoding,
                ),
            },
            Err(e) => bearer_payload(authorization) == Err::<Seq<u8>, AuthError>(e),
        },
{
}

/// A bearer header made from a token `a.b.c` of `.`-free segments (visible
/// ASCII, not itself starting with `Bearer `) authenticates with the decoded
/// middle segment, whatever its length, or is refused as badly encoded
/// exactly when `b` does not decode.
pub proof fn law_payload_of_token(a: Seq<u8>, b: Seq<u8>, c: Seq<u8>)
    requires
        free_of(a, dot()),
        free_of(b, dot()),
        free_of(c, dot()),
        header_text(bearer_prefix() + a.push(dot()) + b.push(dot()) + c) is Some,
        !starts_with(a.push(dot()) + b.push(dot()) + c, bearer_prefix()),
    ensures
        bearer_payload(Some(bearer_prefix() + a.push(dot()) + b.push(dot()) + c)) == match standard_no_pad_decode(b) {
            Some(d) => Ok::<Seq<u8>, AuthError>(d),
            None => Err::<Seq<u8>, AuthError>(AuthError::InvalidPayloadEncoding),
        },
{
    law_bearer_segment_of_token(a, b, c);
}

} // verus!

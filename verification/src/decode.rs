//! The path decoder: raw request path segments are rejoined with a backslash
//! separator (the collection service's internal path convention), the joined
//! bytes are percent-decoded, and the result must be valid UTF-8 to become a
//! virtual path.

use vstd::prelude::*;
use vstd::utf8::valid_utf8;

use crate::error::{DomainError, Failure, Status};

verus! {

/// The separator the collection service uses between path segments (an
/// ASCII backslash).
pub const SEPARATOR: u8 = 92;

/// ASCII `%`.
pub const PERCENT: u8 = 37;

/// An ASCII hexadecimal digit, either case.
pub open spec fn is_hex_digit(b: u8) -> bool {
    (48 <= b && b <= 57) || (97 <= b && b <= 102) || (65 <= b && b <= 70)
}

/// The numeric value of a hexadecimal digit.
pub open spec fn hex_value(b: u8) -> u8
    recommends
        is_hex_digit(b),
{
    if 48 <= b && b <= 57 {
        (b - 48) as u8
    } else if 97 <= b && b <= 102 {
        ((b - 97) + 10) as u8
    } else {
        ((b - 65) + 10) as u8
    }
}

fn hex_digit(b: u8) -> (r: bool)
    ensures
        r == is_hex_digit(b),
{
    (48 <= b && b <= 57) || (97 <= b && b <= 102) || (65 <= b && b <= 70)
}

fn hex_val(b: u8) -> (r: u8)
    requires
        is_hex_digit(b),
    ensures
        r == hex_value(b),
        r <= 15,
{
    if 48 <= b && b <= 57 {
        b - 48
    } else if 97 <= b && b <= 102 {
        b - 97 + 10
    } else {
        b - 65 + 10
    }
}

/// Percent-decoding of a byte sequence: a `%` followed by two hexadecimal
/// digits becomes the byte they spell; every other byte, a `%` of a malformed
/// escape included, passes through unchanged.
pub open spec fn percent_decoded(s: Seq<u8>) -> Seq<u8>
    decreases s.len(),
{
    if s.len() == 0 {
        Seq::empty()
    } else if s[0] == PERCENT && s.len() >= 3 && is_hex_digit(s[1]) && is_hex_digit(s[2]) {
        seq![(hex_value(s[1]) * 16 + hex_value(s[2])) as u8] + percent_decoded(s.skip(3))
    } else {
        seq![s[0]] + percent_decoded(s.skip(1))
    }
}

/// Percent-decode a byte sequence.
pub fn percent_decode(input: &Vec<u8>) -> (out: Vec<u8>)
    ensures
        out@ == percent_decoded(input@),
{
    let mut out: Vec<u8> = Vec::new();
    let mut i: usize = 0;
    proof {
        assert(input@.skip(0) =~= input@);
        assert(out@ + percent_decoded(input@) =~= percent_decoded(input@));
    }
    while i < input.len()
        invariant
            i <= input.len(),
            percent_decoded(input@) == out@ + percent_decoded(input@.skip(i as int)),
        decreases input.len() - i,
    {
        let ghost rem = input@.skip(i as int);
        assert(rem[0] == input@[i as int]);
        let b = input[i];
        if b == PERCENT && input.len() - i >= 3 && hex_digit(input[i + 1]) && hex_digit(input[i + 2]) {
            assert(rem[1] == input@[i + 1] && rem[2] == input@[i + 2]);
            let v: u8 = hex_val(input[i + 1]) * 16 + hex_val(input[i + 2]);
            let ghost old_out = out@;
            out.push(v);
            proof {
                assert(percent_decoded(rem) == seq![v] + percent_decoded(rem.skip(3)));
                assert(rem.skip(3) =~= input@.skip(i + 3));
                assert(old_out + (seq![v] + percent_decoded(rem.skip(3))) =~= out@
                    + percent_decoded(input@.skip(i + 3)));
            }
            i += 3;
        } else {
            let ghost old_out = out@;
            out.push(b);
            proof {
                assert(percent_decoded(rem) == seq![b] + percent_decoded(rem.skip(1)));
                assert(rem.skip(1) =~= input@.skip(i + 1));
                assert(old_out + (seq![b] + percent_decoded(rem.skip(1))) =~= out@
                    + percent_decoded(input@.skip(i + 1)));
            }
            i += 1;
        }
    }
    proof {
        assert(input@.skip(input@.len() as int) =~= Seq::<u8>::empty());
        assert(out@ =~= percent_decoded(input@));
    }
    out
}

/// A byte that percent-encoding leaves as itself: ASCII letters, digits and
/// `-` `.` `_` `~`. Everything else, `%` and the backslash separator
/// included, is escaped.
pub open spec fn is_unreserved(b: u8) -> bool {
    (65 <= b && b <= 90) || (97 <= b && b <= 122) || (48 <= b && b <= 57) || b == 45
        || b == 46 || b == 95 || b == 126
}

/// The upper-case hexadecimal digit for a value below sixteen.
pub open spec fn upper_hex_digit(v: u8) -> u8
    recommends
        v < 16,
{
    if v < 10 {
        (48 + v) as u8
    } else {
        (65 + (v - 10)) as u8
    }
}

/// What one byte becomes under percent-encoding.
pub open spec fn encoded_byte(b: u8) -> Seq<u8> {
    if is_unreserved(b) {
        seq![b]
    } else {
        seq![PERCENT, upper_hex_digit(b / 16), upper_hex_digit(b % 16)]
    }
}

/// Percent-encoding of a byte sequence, byte by byte.
pub open spec fn percent_encoded(s: Seq<u8>) -> Seq<u8>
    decreases s.len(),
{
    if s.len() == 0 {
        Seq::empty()
    } else {
        encoded_byte(s[0]) + percent_encoded(s.skip(1))
    }
}

/// Percent-encode a byte sequence.
pub fn percent_encode(input: &Vec<u8>) -> (out: Vec<u8>)
    ensures
        out@ == percent_encoded(input@),
{
    let mut out: Vec<u8> = Vec::new();
    let mut i: usize = 0;
    proof {
        assert(input@.skip(0) =~= input@);
        assert(out@ + percent_encoded(input@) =~= percent_encoded(input@));
    }
    while i < input.len()
        invariant
            i <= input.len(),
            percent_encoded(input@) == out@ + percent_encoded(input@.skip(i as int)),
        decreases input.len() - i,
    {
        let ghost rem = input@.skip(i as int);
        assert(rem[0] == input@[i as int]);
        let b = input[i];
        let ghost old_out = out@;
        let unreserved = (65 <= b && b <= 90) || (97 <= b && b <= 122) || (48 <= b
            && b <= 57) || b == 45 || b == 46 || b == 95 || b == 126;
        if unreserved {
            out.push(b);
        } else {
            out.push(PERCENT);
            let hi: u8 = b / 16;
            let lo: u8 = b % 16;
            out.push(if hi < 10 { 48 + hi } else { 65 + (hi - 10) });
            out.push(if lo < 10 { 48 + lo } else { 65 + (lo - 10) });
        }
        proof {
            assert(percent_encoded(rem) == encoded_byte(b) + percent_encoded(rem.skip(1)));
            assert(rem.skip(1) =~= input@.skip(i + 1));
            assert(old_out + (encoded_byte(b) + percent_encoded(rem.skip(1))) =~= out@
                + percent_encoded(input@.skip(i + 1)));
        }
        i += 1;
    }
    proof {
        assert(input@.skip(input@.len() as int) =~= Seq::<u8>::empty());
        assert(out@ =~= percent_encoded(input@));
    }
    out
}

/// The views of a sequence of byte vectors.
pub open spec fn views_of(segments: Seq<Vec<u8>>) -> Seq<Seq<u8>> {
    segments.map_values(|v: Vec<u8>| v@)
}

/// What follows the first segment in a joined sequence: a separator before
/// each remaining segment.
pub open spec fn joined_tail(segments: Seq<Seq<u8>>, sep: u8) -> Seq<u8>
    decreases segments.len(),
{
    if segments.len() == 0 {
        Seq::empty()
    } else {
        seq![sep] + segments[0] + joined_tail(segments.skip(1), sep)
    }
}

/// The segments joined into one sequence, a single separator between
/// neighbours.
pub open spec fn joined(segments: Seq<Seq<u8>>, sep: u8) -> Seq<u8> {
    if segments.len() == 0 {
        Seq::empty()
    } else {
        segments[0] + joined_tail(segments.skip(1), sep)
    }
}

fn append_bytes(out: &mut Vec<u8>, src: &Vec<u8>)
    ensures
        final(out)@ == old(out)@ + src@,
{
    let mut j: usize = 0;
    while j < src.len()
        invariant
            j <= src.len(),
            out@ == old(out)@ + src@.take(j as int),
        decreases src.len() - j,
    {
        out.push(src[j]);
        proof {
            assert(src@.take(j + 1) =~= src@.take(j as int) + seq![src@[j as int]]);
            assert(old(out)@ + src@.take(j + 1) =~= (old(out)@ + src@.take(j as int)) + seq![
                src@[j as int],
            ]);
        }
        j += 1;
    }
    proof {
        assert(src@.take(src@.len() as int) =~= src@);
    }
}

/// Join the segments with the given separator byte.
pub fn join_segments(segments: &Vec<Vec<u8>>, sep: u8) -> (out: Vec<u8>)
    ensures
        out@ == joined(views_of(segments@), sep),
{
    let ghost vs = views_of(segments@);
    let mut out: Vec<u8> = Vec::new();
    if segments.len() == 0 {
        return out;
    }
    append_bytes(&mut out, &segments[0]);
    let mut i: usize = 1;
    while i < segments.len()
        invariant
            1 <= i <= segments.len(),
            vs == views_of(segments@),
            vs.len() == segments@.len(),
            joined(vs, sep) == out@ + joined_tail(vs.skip(i as int), sep),
        decreases segments.len() - i,
    {
        let ghost old_out = out@;
        out.push(sep);
        append_bytes(&mut out, &segments[i]);
        proof {
            let rest = vs.skip(i as int);
            assert(rest[0] == vs[i as int]);
            assert(joined_tail(rest, sep) == seq![sep] + rest[0] + joined_tail(
                rest.skip(1),
                sep,
            ));
            assert(rest.skip(1) =~= vs.skip(i + 1));
            assert(out@ =~= old_out + seq![sep] + vs[i as int]);
            assert(old_out + (seq![sep] + vs[i as int] + joined_tail(vs.skip(i + 1), sep)) =~= out@
                + joined_tail(vs.skip(i + 1), sep));
        }
        i += 1;
    }
    proof {
        assert(vs.skip(vs.len() as int) =~= Seq::<Seq<u8>>::empty());
        assert(out@ =~= joined(vs, sep));
    }
    out
}

/// Relies on `std::str::from_utf8`: it returns `Ok` exactly when its input is
/// valid UTF-8, the well-formedness that vstd's `valid_utf8` states.
#[verifier::external_body]
fn utf8_valid(bytes: &Vec<u8>) -> (r: bool)
    ensures
        r == valid_utf8(bytes@),
{
    std::str::from_utf8(bytes.as_slice()).is_ok()
}

/// A location in the media library's logical namespace: the percent-decoded
/// request path, held as UTF-8 bytes with a backslash between segments (the
/// collection service's convention), independent of any real filesystem
/// layout.
#[derive(Debug, PartialEq, Eq)]
pub struct VirtualPath {
    bytes: Vec<u8>,
}

impl View for VirtualPath {
    type V = Seq<u8>;

    closed spec fn view(&self) -> Seq<u8> {
        self.bytes@
    }
}

impl VirtualPath {
    /// A virtual path is well-formed when its bytes are valid UTF-8; the
    /// decoder never builds one otherwise.
    pub open spec fn wf(&self) -> bool {
        valid_utf8(self@)
    }

    /// The path as its ordered segments, split at each separator.
    pub open spec fn segments(&self) -> Seq<Seq<u8>> {
        split_by(self@, SEPARATOR)
    }

    /// The path's bytes.
    pub fn as_bytes(&self) -> (r: &Vec<u8>)
        ensures
            r@ == self@,
    {
        &self.bytes
    }

    /// Give up the path for its bytes.
    pub fn into_bytes(self) -> (r: Vec<u8>)
        ensures
            r@ == self@,
    {
        self.bytes
    }
}

/// The bytes a raw segment sequence decodes to: the segments joined with the
/// backslash separator, then percent-decoded.
pub open spec fn decoded_request_path(segments: Seq<Seq<u8>>) -> Seq<u8> {
    percent_decoded(joined(segments, SEPARATOR))
}

/// Decode a raw request path. Succeeds exactly when the percent-decoded
/// bytes are valid UTF-8; anything else is a path-decoding failure, never a
/// panic.
pub fn decode_path(segments: &Vec<Vec<u8>>) -> (r: Result<VirtualPath, DomainError>)
    ensures
        ({
            let d = decoded_request_path(views_of(segments@));
            &&& r is Ok <==> valid_utf8(d)
            &&& r matches Ok(vp) ==> (vp@ == d && vp.wf())
            &&& r matches Err(e) ==> e == DomainError::PathDecoding
        }),
{
    let joined_bytes = join_segments(segments, SEPARATOR);
    let decoded = percent_decode(&joined_bytes);
    if utf8_valid(&decoded) {
        Ok(VirtualPath { bytes: decoded })
    } else {
        Err(DomainError::PathDecoding)
    }
}

/// Stage one of the browse, flatten and serve handlers: decode the raw
/// segments. A decoding failure is surfaced directly from the decoder as Bad
/// Request, not through the domain-error status table.
pub fn decode_reply(segments: &Vec<Vec<u8>>) -> (r: Result<VirtualPath, Failure>)
    ensures
        ({
            let d = decoded_request_path(views_of(segments@));
            &&& r is Ok <==> valid_utf8(d)
            &&& r matches Ok(vp) ==> (vp@ == d && vp.wf())
            &&& r matches Err(f) ==> (f.kind == Some(DomainError::PathDecoding) && f.status
                == Status::BadRequest)
        }),
{
    match decode_path(segments) {
        Ok(vp) => Ok(vp),
        Err(e) => Err(Failure { kind: Some(e), status: Status::BadRequest }),
    }
}

/// The decoded path split back into segments at each separator byte. An
/// empty path is one empty segment, as a path with no separator is one
/// segment.
pub open spec fn split_by(s: Seq<u8>, sep: u8) -> Seq<Seq<u8>>
    decreases s.len(),
{
    if s.len() == 0 {
        seq![Seq::empty()]
    } else if s[0] == sep {
        seq![Seq::empty()] + split_by(s.skip(1), sep)
    } else {
        let rest = split_by(s.skip(1), sep);
        seq![seq![s[0]] + rest[0]] + rest.skip(1)
    }
}

/// Each segment sequence percent-encoded.
pub open spec fn encoded_all(segments: Seq<Seq<u8>>) -> Seq<Seq<u8>> {
    segments.map_values(|s: Seq<u8>| percent_encoded(s))
}

proof fn lemma_hex_of_upper(v: u8)
    requires
        v < 16,
    ensures
        is_hex_digit(upper_hex_digit(v)),
        hex_value(upper_hex_digit(v)) == v,
{
}

/// Decoding inverts encoding, byte for byte, whatever follows: decoding an
/// encoded sequence consumes it back to the original and goes on with the
/// rest.
proof fn lemma_percent_round_trip_prefix(s: Seq<u8>, rest: Seq<u8>)
    ensures
        percent_decoded(percent_encoded(s) + rest) == s + percent_decoded(rest),
    decreases s.len(),
{
    if s.len() == 0 {
        assert(percent_encoded(s) + rest =~= rest);
        assert(s + percent_decoded(rest) =~= percent_decoded(rest));
    } else {
        let b = s[0];
        let tail = s.skip(1);
        lemma_percent_round_trip_prefix(tail, rest);
        let whole = percent_encoded(s) + rest;
        assert(percent_encoded(s) == encoded_byte(b) + percent_encoded(tail));
        if is_unreserved(b) {
            assert(whole =~= seq![b] + (percent_encoded(tail) + rest));
            assert(whole[0] == b && b != PERCENT);
            assert(whole.skip(1) =~= percent_encoded(tail) + rest);
            assert(percent_decoded(whole) == seq![b] + percent_decoded(whole.skip(1)));
            assert(seq![b] + (tail + percent_decoded(rest)) =~= s + percent_decoded(rest));
        } else {
            let h1 = upper_hex_digit(b / 16);
            let h2 = upper_hex_digit(b % 16);
            lemma_hex_of_upper(b / 16);
            lemma_hex_of_upper(b % 16);
            assert(whole =~= seq![PERCENT, h1, h2] + (percent_encoded(tail) + rest));
            assert(whole[0] == PERCENT && whole[1] == h1 && whole[2] == h2 && whole.len() >= 3);
            assert(hex_value(h1) * 16 + hex_value(h2) == b) by {
                vstd::arithmetic::div_mod::lemma_fundamental_div_mod(b as int, 16);
            };
            assert(whole.skip(3) =~= percent_encoded(tail) + rest);
            assert(percent_decoded(whole) == seq![b] + percent_decoded(whole.skip(3)));
            assert(seq![b] + (tail + percent_decoded(rest)) =~= s + percent_decoded(rest));
        }
    }
}

proof fn lemma_decode_of_encoded_tail(segments: Seq<Seq<u8>>)
    ensures
        percent_decoded(joined_tail(encoded_all(segments), SEPARATOR)) == joined_tail(
            segments,
            SEPARATOR,
        ),
    decreases segments.len(),
{
    let enc = encoded_all(segments);
    if segments.len() == 0 {
        assert(percent_decoded(joined_tail(enc, SEPARATOR)) =~= joined_tail(segments, SEPARATOR));
    } else {
        lemma_decode_of_encoded_tail(segments.skip(1));
        assert(enc.skip(1) =~= encoded_all(segments.skip(1)));
        let rest_join = joined_tail(encoded_all(segments.skip(1)), SEPARATOR);
        let whole = joined_tail(enc, SEPARATOR);
        assert(whole =~= seq![SEPARATOR] + (enc[0] + rest_join));
        assert(whole[0] == SEPARATOR && SEPARATOR != PERCENT);
        assert(whole.skip(1) =~= enc[0] + rest_join);
        assert(percent_decoded(whole) == seq![SEPARATOR] + percent_decoded(whole.skip(1)));
        assert(enc[0] == percent_encoded(segments[0]));
        lemma_percent_round_trip_prefix(segments[0], rest_join);
        assert(seq![SEPARATOR] + (segments[0] + joined_tail(segments.skip(1), SEPARATOR))
            =~= joined_tail(segments, SEPARATOR));
    }
}

/// Decoding a joined, segment-wise encoded request path yields exactly the
/// original segments joined with the separator.
pub proof fn lemma_decode_of_encode(segments: Seq<Seq<u8>>)
    ensures
        decoded_request_path(encoded_all(segments)) == joined(segments, SEPARATOR),
{
    let enc = encoded_all(segments);
    if segments.len() == 0 {
        assert(percent_decoded(joined(enc, SEPARATOR)) =~= joined(segments, SEPARATOR));
    } else {
        lemma_decode_of_encoded_tail(segments.skip(1));
        assert(enc.skip(1) =~= encoded_all(segments.skip(1)));
        let rest_join = joined_tail(encoded_all(segments.skip(1)), SEPARATOR);
        assert(joined(enc, SEPARATOR) =~= percent_encoded(segments[0]) + rest_join);
        lemma_percent_round_trip_prefix(segments[0], rest_join);
    }
}

proof fn lemma_split_len(s: Seq<u8>, sep: u8)
    ensures
        split_by(s, sep).len() >= 1,
    decreases s.len(),
{
    if s.len() > 0 {
        lemma_split_len(s.skip(1), sep);
    }
}

proof fn lemma_split_prefix(s0: Seq<u8>, tail: Seq<u8>, sep: u8)
    requires
        forall|i: int| 0 <= i < s0.len() ==> s0[i] != sep,
    ensures
        split_by(s0 + tail, sep) == seq![s0 + split_by(tail, sep)[0]] + split_by(
            tail,
            sep,
        ).skip(1),
    decreases s0.len(),
{
    lemma_split_len(tail, sep);
    if s0.len() == 0 {
        assert(s0 + tail =~= tail);
        assert(s0 + split_by(tail, sep)[0] =~= split_by(tail, sep)[0]);
        assert(seq![split_by(tail, sep)[0]] + split_by(tail, sep).skip(1) =~= split_by(tail, sep));
    } else {
        let b = s0[0];
        let s0tail = s0.skip(1);
        assert(forall|i: int| 0 <= i < s0tail.len() ==> s0tail[i] != sep) by {
            assert(forall|i: int| 0 <= i < s0tail.len() ==> s0tail[i] == s0[i + 1]);
        };
        lemma_split_prefix(s0tail, tail, sep);
        let whole = s0 + tail;
        assert(whole[0] == b && b != sep);
        assert(whole.skip(1) =~= s0tail + tail);
        let rest = split_by(whole.skip(1), sep);
        assert(split_by(whole, sep) == seq![seq![b] + rest[0]] + rest.skip(1));
        assert(rest == seq![s0tail + split_by(tail, sep)[0]] + split_by(tail, sep).skip(1));
        assert(rest[0] == s0tail + split_by(tail, sep)[0]);
        assert(seq![b] + rest[0] =~= s0 + split_by(tail, sep)[0]);
        assert(rest.skip(1) =~= split_by(tail, sep).skip(1));
    }
}

/// Splitting undoes joining: joining segments that hold no separator byte
/// and splitting the result at the separator gives back the same segments.
pub proof fn lemma_split_joined(segments: Seq<Seq<u8>>, sep: u8)
    requires
        segments.len() >= 1,
        forall|i: int, j: int|
            0 <= i < segments.len() && 0 <= j < segments[i].len() ==> #[trigger] segments[i][j]
                != sep,
    ensures
        split_by(joined(segments, sep), sep) == segments,
    decreases segments.len(),
{
    if segments.len() == 1 {
        assert(joined_tail(segments.skip(1), sep) =~= Seq::<u8>::empty());
        assert(joined(segments, sep) =~= segments[0] + Seq::<u8>::empty());
        lemma_split_prefix(segments[0], Seq::empty(), sep);
        assert(split_by(Seq::<u8>::empty(), sep) == seq![Seq::<u8>::empty()]);
        assert(segments[0] + split_by(Seq::<u8>::empty(), sep)[0] =~= segments[0]);
        assert(split_by(Seq::<u8>::empty(), sep).skip(1) =~= Seq::<Seq<u8>>::empty());
        assert(seq![segments[0]] + Seq::<Seq<u8>>::empty() =~= segments);
    } else {
        let rest = segments.skip(1);
        assert(forall|i: int, j: int|
            0 <= i < rest.len() && 0 <= j < rest[i].len() ==> #[trigger] rest[i][j] != sep) by {
            assert(forall|i: int| 0 <= i < rest.len() ==> rest[i] == segments[i + 1]);
        };
        lemma_split_joined(rest, sep);
        let tail = seq![sep] + joined(rest, sep);
        assert(joined_tail(rest, sep) =~= seq![sep] + joined(rest, sep));
        assert(joined(segments, sep) =~= segments[0] + tail);
        lemma_split_prefix(segments[0], tail, sep);
        assert(tail[0] == sep);
        assert(tail.skip(1) =~= joined(rest, sep));
        assert(split_by(tail, sep) == seq![Seq::<u8>::empty()] + split_by(tail.skip(1), sep));
        assert(split_by(tail, sep)[0] =~= Seq::<u8>::empty());
        assert(split_by(tail, sep).skip(1) =~= split_by(joined(rest, sep), sep));
        assert(segments[0] + Seq::<u8>::empty() =~= segments[0]);
        assert(seq![segments[0]] + rest =~= segments);
    }
}

proof fn lemma_separator_valid_utf8()
    ensures
        valid_utf8(seq![SEPARATOR]),
{
    let s = seq![SEPARATOR];
    assert(s.subrange(0, 0) =~= Seq::<u8>::empty());
    assert(vstd::utf8::partial_valid_utf8(s, 0));
    assert(vstd::utf8::is_leading_byte_width_1(s[0]));
    vstd::utf8::partial_valid_utf8_extend_ascii_block(s, 0, 1);
    assert(s.subrange(0, 1) =~= s);
}

/// Valid UTF-8 segments joined with the (ASCII) separator form valid UTF-8.
pub proof fn lemma_joined_valid_utf8(segments: Seq<Seq<u8>>)
    requires
        forall|i: int| 0 <= i < segments.len() ==> valid_utf8(#[trigger] segments[i]),
    ensures
        valid_utf8(joined(segments, SEPARATOR)),
    decreases segments.len(),
{
    if segments.len() == 0 {
        assert(valid_utf8(Seq::<u8>::empty()));
    } else if segments.len() == 1 {
        assert(joined(segments, SEPARATOR) =~= segments[0] + Seq::<u8>::empty());
        assert(segments[0] + Seq::<u8>::empty() =~= segments[0]);
    } else {
        let rest = segments.skip(1);
        assert(forall|i: int| 0 <= i < rest.len() ==> valid_utf8(#[trigger] rest[i])) by {
            assert(forall|i: int| 0 <= i < rest.len() ==> rest[i] == segments[i + 1]);
        };
        lemma_joined_valid_utf8(rest);
        lemma_separator_valid_utf8();
        vstd::utf8::valid_utf8_concat(seq![SEPARATOR], joined(rest, SEPARATOR));
        vstd::utf8::valid_utf8_concat(segments[0], seq![SEPARATOR] + joined(rest, SEPARATOR));
        assert(joined_tail(rest, SEPARATOR) =~= seq![SEPARATOR] + joined(rest, SEPARATOR));
        assert(joined(segments, SEPARATOR) =~= segments[0] + (seq![SEPARATOR] + joined(
            rest,
            SEPARATOR,
        )));
    }
}

/// Decoding is the inverse of encoding: take any segment sequence, each
/// segment valid UTF-8 and free of the separator byte; percent-encode each
/// segment and decode the resulting raw request path. Decoding succeeds, and
/// splitting the decoded path at the separator reconstructs exactly the
/// original segment sequence.
pub proof fn lemma_decode_encode_round_trip(segments: Seq<Seq<u8>>)
    requires
        segments.len() >= 1,
        forall|i: int, j: int|
            0 <= i < segments.len() && 0 <= j < segments[i].len() ==> #[trigger] segments[i][j]
                != SEPARATOR,
        forall|i: int| 0 <= i < segments.len() ==> valid_utf8(#[trigger] segments[i]),
    ensures
        decoded_request_path(encoded_all(segments)) == joined(segments, SEPARATOR),
        valid_utf8(decoded_request_path(encoded_all(segments))),
        split_by(decoded_request_path(encoded_all(segments)), SEPARATOR) == segments,
{
    lemma_decode_of_encode(segments);
    lemma_joined_valid_utf8(segments);
    lemma_split_joined(segments, SEPARATOR);
}

} // verus!

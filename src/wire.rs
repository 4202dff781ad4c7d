//! Byte-level primitives of the wire format: big-endian `u32`s, length-prefixed
//! byte fields and strings, and the length prefix that frames each message.
use vstd::prelude::*;
use vstd::utf8::{decode_utf8, encode_utf8, valid_utf8};

verus! {

broadcast use vstd::utf8::encode_utf8_valid_utf8, vstd::utf8::encode_utf8_decode_utf8;

/// The largest value of a `u32`, as a mathematical integer.
pub open spec fn u32_limit() -> int {
    0xffff_ffff
}

/// Big-endian bytes of `v`.
pub open spec fn be32(v: u32) -> Seq<u8> {
    seq![(v >> 24u32) as u8, (v >> 16u32) as u8, (v >> 8u32) as u8, v as u8]
}

/// The `u32` whose big-endian bytes are `b0 b1 b2 b3`.
pub open spec fn be32_value(b0: u8, b1: u8, b2: u8, b3: u8) -> u32 {
    ((b0 as u32) << 24u32) | ((b1 as u32) << 16u32) | ((b2 as u32) << 8u32) | (b3 as u32)
}

/// `e` stands in `s` starting at index `pos`.
pub open spec fn occurs_at(s: Seq<u8>, pos: int, e: Seq<u8>) -> bool {
    &&& 0 <= pos
    &&& pos + e.len() <= s.len()
    &&& s.subrange(pos, pos + e.len()) == e
}

/// Reads a big-endian `u32` at `pos`; gives the value and the position after it.
pub open spec fn read_u32_spec(s: Seq<u8>, pos: int) -> Option<(u32, int)> {
    if 0 <= pos && pos + 4 <= s.len() {
        Some((be32_value(s[pos], s[pos + 1], s[pos + 2], s[pos + 3]), pos + 4))
    } else {
        None
    }
}

/// A byte field: its length as a big-endian `u32`, then the bytes.
pub open spec fn bytes_field(b: Seq<u8>) -> Seq<u8> {
    be32(b.len() as u32) + b
}

/// Reads a byte field at `pos`.
pub open spec fn read_bytes_spec(s: Seq<u8>, pos: int) -> Option<(Seq<u8>, int)> {
    match read_u32_spec(s, pos) {
        Some((n, p)) => if p + n <= s.len() {
            Some((s.subrange(p, p + n), p + n))
        } else {
            None
        },
        None => None,
    }
}

/// A string field: the byte field of the string's UTF-8 encoding.
pub open spec fn str_field(c: Seq<char>) -> Seq<u8> {
    bytes_field(encode_utf8(c))
}

/// Reads a string field at `pos`; fails unless its bytes are valid UTF-8.
pub open spec fn read_str_spec(s: Seq<u8>, pos: int) -> Option<(Seq<char>, int)> {
    match read_bytes_spec(s, pos) {
        Some((b, p)) => if valid_utf8(b) {
            Some((decode_utf8(b), p))
        } else {
            None
        },
        None => None,
    }
}

/// The big-endian bytes of each `u32` of `v`, one after another.
pub open spec fn u32_run(v: Seq<u32>) -> Seq<u8>
    decreases v.len(),
{
    if v.len() == 0 {
        Seq::empty()
    } else {
        be32(v[0]) + u32_run(v.drop_first())
    }
}

/// Reads `count` big-endian `u32`s at `pos`.
pub open spec fn read_u32_run_spec(s: Seq<u8>, pos: int, count: nat) -> Option<(Seq<u32>, int)>
    decreases count,
{
    if count == 0 {
        if 0 <= pos && pos <= s.len() {
            Some((Seq::empty(), pos))
        } else {
            None
        }
    } else {
        match read_u32_spec(s, pos) {
            Some((v, p)) => match read_u32_run_spec(s, p, (count - 1) as nat) {
                Some((rest, q)) => Some((seq![v].add(rest), q)),
                None => None,
            },
            None => None,
        }
    }
}

/// A list of `u32`s: its length as a `u32`, then each element.
pub open spec fn u32_list(v: Seq<u32>) -> Seq<u8> {
    be32(v.len() as u32) + u32_run(v)
}

/// Reads a list of `u32`s at `pos`.
pub open spec fn read_u32_list_spec(s: Seq<u8>, pos: int) -> Option<(Seq<u32>, int)> {
    match read_u32_spec(s, pos) {
        Some((n, p)) => read_u32_run_spec(s, p, n as nat),
        None => None,
    }
}

/// The big-endian bytes of a `u32` read back give the `u32`.
pub proof fn lemma_be32_value(v: u32)
    ensures
        be32_value(be32(v)[0], be32(v)[1], be32(v)[2], be32(v)[3]) == v,
{
    let b0 = (v >> 24u32) as u8;
    let b1 = (v >> 16u32) as u8;
    let b2 = (v >> 8u32) as u8;
    let b3 = v as u8;
    assert(((b0 as u32) << 24u32) | ((b1 as u32) << 16u32) | ((b2 as u32) << 8u32) | (b3 as u32)
        == v) by (bit_vector)
        requires
            b0 == (v >> 24u32) as u8,
            b1 == (v >> 16u32) as u8,
            b2 == (v >> 8u32) as u8,
            b3 == v as u8,
    ;
}

/// Two pieces that stand one after the other in `s`.
pub proof fn lemma_occurs_split(s: Seq<u8>, pos: int, a: Seq<u8>, b: Seq<u8>)
    requires
        occurs_at(s, pos, a + b),
    ensures
        occurs_at(s, pos, a),
        occurs_at(s, pos + a.len(), b),
{
    assert(s.subrange(pos, pos + a.len()) =~= (a + b).subrange(0, a.len() as int));
    assert((a + b).subrange(0, a.len() as int) =~= a);
    assert(s.subrange(pos + a.len(), pos + a.len() + b.len()) =~= (a + b).subrange(
        a.len() as int,
        (a.len() + b.len()) as int,
    ));
    assert((a + b).subrange(a.len() as int, (a.len() + b.len()) as int) =~= b);
}

/// A `u32` written at `pos` reads back.
pub proof fn lemma_read_u32(s: Seq<u8>, pos: int, v: u32)
    requires
        occurs_at(s, pos, be32(v)),
    ensures
        read_u32_spec(s, pos) == Some((v, pos + 4)),
{
    assert(s[pos] == s.subrange(pos, pos + 4)[0]);
    assert(s[pos + 1] == s.subrange(pos, pos + 4)[1]);
    assert(s[pos + 2] == s.subrange(pos, pos + 4)[2]);
    assert(s[pos + 3] == s.subrange(pos, pos + 4)[3]);
    lemma_be32_value(v);
}

/// A byte field written at `pos` reads back.
pub proof fn lemma_read_bytes(s: Seq<u8>, pos: int, b: Seq<u8>)
    requires
        b.len() <= u32_limit(),
        occurs_at(s, pos, bytes_field(b)),
    ensures
        read_bytes_spec(s, pos) == Some((b, pos + 4 + b.len())),
{
    lemma_occurs_split(s, pos, be32(b.len() as u32), b);
    lemma_read_u32(s, pos, b.len() as u32);
}

/// A string field written at `pos` reads back.
pub proof fn lemma_read_str(s: Seq<u8>, pos: int, c: Seq<char>)
    requires
        encode_utf8(c).len() <= u32_limit(),
        occurs_at(s, pos, str_field(c)),
    ensures
        read_str_spec(s, pos) == Some((c, pos + 4 + encode_utf8(c).len())),
{
    lemma_read_bytes(s, pos, encode_utf8(c));
}

/// Length of a run of `u32`s.
pub proof fn lemma_u32_run_len(v: Seq<u32>)
    ensures
        u32_run(v).len() == 4 * v.len(),
    decreases v.len(),
{
    if v.len() > 0 {
        lemma_u32_run_len(v.drop_first());
    }
}

/// A run of `u32`s written at `pos` reads back.
pub proof fn lemma_read_u32_run(s: Seq<u8>, pos: int, v: Seq<u32>)
    requires
        occurs_at(s, pos, u32_run(v)),
    ensures
        read_u32_run_spec(s, pos, v.len()) == Some((v, pos + 4 * v.len())),
    decreases v.len(),
{
    lemma_u32_run_len(v);
    if v.len() > 0 {
        lemma_occurs_split(s, pos, be32(v[0]), u32_run(v.drop_first()));
        lemma_read_u32(s, pos, v[0]);
        lemma_read_u32_run(s, pos + 4, v.drop_first());
        assert(seq![v[0]].add(v.drop_first()) =~= v);
    }
}

/// A list of `u32`s written at `pos` reads back.
pub proof fn lemma_read_u32_list(s: Seq<u8>, pos: int, v: Seq<u32>)
    requires
        v.len() <= u32_limit(),
        occurs_at(s, pos, u32_list(v)),
    ensures
        read_u32_list_spec(s, pos) == Some((v, pos + 4 + 4 * v.len())),
{
    lemma_occurs_split(s, pos, be32(v.len() as u32), u32_run(v));
    lemma_read_u32(s, pos, v.len() as u32);
    lemma_read_u32_run(s, pos + 4, v);
}

/// Appends the big-endian bytes of `v`.
pub fn push_u32(out: &mut Vec<u8>, v: u32)
    ensures
        final(out)@ == old(out)@ + be32(v),
{
    out.push((v >> 24u32) as u8);
    out.push((v >> 16u32) as u8);
    out.push((v >> 8u32) as u8);
    out.push(v as u8);
    assert(final(out)@ =~= old(out)@ + be32(v));
}

/// Reads a big-endian `u32` at `pos`.
pub fn read_u32(b: &[u8], pos: usize) -> (r: Option<(u32, usize)>)
    ensures
        r is Some <==> read_u32_spec(b@, pos as int) is Some,
        r is Some ==> read_u32_spec(b@, pos as int) == Some((r.unwrap().0, r.unwrap().1 as int)),
{
    if pos <= b.len() && b.len() - pos >= 4 {
        let v = ((b[pos] as u32) << 24u32) | ((b[pos + 1] as u32) << 16u32) | ((b[pos + 2] as u32)
            << 8u32) | (b[pos + 3] as u32);
        Some((v, pos + 4))
    } else {
        None
    }
}

/// Appends the bytes of `b` at the end of `out`.
pub fn push_all(out: &mut Vec<u8>, b: &[u8])
    ensures
        final(out)@ == old(out)@ + b@,
{
    let mut i: usize = 0;
    while i < b.len()
        invariant
            0 <= i <= b.len(),
            out@ == old(out)@ + b@.subrange(0, i as int),
        decreases b.len() - i,
    {
        out.push(b[i]);
        i = i + 1;
        assert(out@ =~= old(out)@ + b@.subrange(0, i as int));
    }
    assert(b@.subrange(0, b@.len() as int) =~= b@);
}

/// Appends a byte field; fails when `b` is too long for its length to fit a
/// `u32`, and then leaves `out` as it was.
pub fn push_bytes(out: &mut Vec<u8>, b: &[u8]) -> (ok: bool)
    ensures
        ok == (b@.len() <= u32_limit()),
        ok ==> final(out)@ == old(out)@ + bytes_field(b@),
        !ok ==> final(out)@ == old(out)@,
{
    if b.len() > 0xffff_ffffusize {
        return false;
    }
    push_u32(out, b.len() as u32);
    push_all(out, b);
    assert(final(out)@ =~= old(out)@ + bytes_field(b@));
    true
}

/// Reads a byte field at `pos`, borrowing its bytes from `b`.
pub fn read_bytes<'a>(b: &'a [u8], pos: usize) -> (r: Option<(&'a [u8], usize)>)
    ensures
        r is Some <==> read_bytes_spec(b@, pos as int) is Some,
        r is Some ==> read_bytes_spec(b@, pos as int) == Some((r.unwrap().0@, r.unwrap().1 as int)),
{
    match read_u32(b, pos) {
        Some((n, p)) => {
            if b.len() - p >= n as usize {
                let end = p + n as usize;
                Some((&b[p..end], end))
            } else {
                None
            }
        },
        None => None,
    }
}

/// Relies on `std::str::from_utf8`: it accepts exactly the valid UTF-8 byte
/// sequences, and the string it gives is made of those very bytes.
#[verifier::external_body]
fn utf8_str<'a>(b: &'a [u8]) -> (r: Option<&'a str>)
    ensures
        r is Some <==> valid_utf8(b@),
        r is Some ==> encode_utf8(r.unwrap()@) == b@,
{
    std::str::from_utf8(b).ok()
}

/// Appends a string field; fails when the string's UTF-8 encoding is too
/// long, and then leaves `out` as it was.
pub fn push_str(out: &mut Vec<u8>, s: &str) -> (ok: bool)
    ensures
        ok == (encode_utf8(s@).len() <= u32_limit()),
        ok ==> final(out)@ == old(out)@ + str_field(s@),
        !ok ==> final(out)@ == old(out)@,
{
    push_bytes(out, s.as_bytes())
}

/// Reads a string field at `pos`, borrowing its characters from `b`.
pub fn read_str<'a>(b: &'a [u8], pos: usize) -> (r: Option<(&'a str, usize)>)
    ensures
        r is Some <==> read_str_spec(b@, pos as int) is Some,
        r is Some ==> read_str_spec(b@, pos as int) == Some((r.unwrap().0@, r.unwrap().1 as int)),
{
    match read_bytes(b, pos) {
        Some((bytes, p)) => match utf8_str(bytes) {
            Some(s) => {
                proof {
                    vstd::utf8::encode_utf8_decode_utf8(s@);
                }
                Some((s, p))
            },
            None => None,
        },
        None => None,
    }
}

/// Appends a list of `u32`s; fails when the list is too long for its length
/// to fit a `u32`, and then leaves `out` as it was.
pub fn push_u32_list(out: &mut Vec<u8>, v: &[u32]) -> (ok: bool)
    ensures
        ok == (v@.len() <= u32_limit()),
        ok ==> final(out)@ == old(out)@ + u32_list(v@),
        !ok ==> final(out)@ == old(out)@,
{
    if v.len() > 0xffff_ffffusize {
        return false;
    }
    push_u32(out, v.len() as u32);
    let ghost start = out@;
    let mut i: usize = 0;
    while i < v.len()
        invariant
            0 <= i <= v.len(),
            out@ == start + u32_run(v@.subrange(0, i as int)),
        decreases v.len() - i,
    {
        push_u32(out, v[i]);
        proof {
            lemma_u32_run_snoc(v@.subrange(0, i as int), v@[i as int]);
            assert(v@.subrange(0, i as int).push(v@[i as int]) =~= v@.subrange(0, i + 1));
        }
        i = i + 1;
    }
    assert(v@.subrange(0, v@.len() as int) =~= v@);
    assert(final(out)@ =~= old(out)@ + u32_list(v@));
    true
}

/// A run of `u32`s grows at its end as the sequence does.
pub proof fn lemma_u32_run_snoc(v: Seq<u32>, x: u32)
    ensures
        u32_run(v.push(x)) == u32_run(v) + be32(x),
    decreases v.len(),
{
    if v.len() == 0 {
        assert(v.push(x).drop_first() =~= Seq::<u32>::empty());
        assert(v.push(x)[0] == x);
        assert(u32_run(v.push(x).drop_first()) == Seq::<u8>::empty());
        assert(u32_run(v) == Seq::<u8>::empty());
        assert(u32_run(v.push(x)) =~= u32_run(v) + be32(x));
    } else {
        assert(v.push(x).drop_first() =~= v.drop_first().push(x));
        assert(v.push(x)[0] == v[0]);
        lemma_u32_run_snoc(v.drop_first(), x);
        let a = be32(v[0]);
        let b = u32_run(v.drop_first());
        let c = be32(x);
        assert(u32_run(v.push(x)) == a + (b + c));
        assert(a + (b + c) =~= (a + b) + c);
    }
}

/// Reads `count` `u32`s at `pos`.
pub fn read_u32_run(b: &[u8], pos: usize, count: u32) -> (r: Option<(Vec<u32>, usize)>)
    ensures
        r is Some <==> read_u32_run_spec(b@, pos as int, count as nat) is Some,
        r is Some ==> read_u32_run_spec(b@, pos as int, count as nat) == Some(
            (r.unwrap().0@, r.unwrap().1 as int),
        ),
{
    if pos > b.len() || (b.len() - pos) / 4 < count as usize {
        proof {
            lemma_read_u32_run_short(b@, pos as int, count as nat);
        }
        return None;
    }
    let mut v: Vec<u32> = Vec::new();
    let mut p: usize = pos;
    let mut i: u32 = 0;
    while i < count
        invariant
            0 <= i <= count,
            pos <= p <= b.len(),
            p == pos + 4 * i,
            (b.len() - pos) / 4 >= count,
            read_u32_run_spec(b@, pos as int, count as nat) == match read_u32_run_spec(
                b@,
                p as int,
                (count - i) as nat,
            ) {
                Some((rest, q)) => Some((v@ + rest, q)),
                None => None,
            },
        decreases count - i,
    {
        let (x, q) = read_u32(b, p).unwrap();
        proof {
            let rest_spec = read_u32_run_spec(b@, q as int, (count - i - 1) as nat);
            match rest_spec {
                Some((rest, e)) => {
                    assert(v@.push(x) + rest =~= v@ + seq![x].add(rest));
                },
                None => {},
            }
        }
        v.push(x);
        p = q;
        i = i + 1;
    }
    assert(v@ + Seq::<u32>::empty() =~= v@);
    Some((v, p))
}

/// A run that does not fit in what is left after `pos` cannot be read.
proof fn lemma_read_u32_run_short(s: Seq<u8>, pos: int, count: nat)
    requires
        pos > s.len() || (s.len() - pos) / 4 < count,
    ensures
        read_u32_run_spec(s, pos, count) is None,
    decreases count,
{
    if count > 0 {
        if let Some((v, p)) = read_u32_spec(s, pos) {
            lemma_read_u32_run_short(s, p, (count - 1) as nat);
        }
    }
}

/// Reads a list of `u32`s at `pos`.
pub fn read_u32_list(b: &[u8], pos: usize) -> (r: Option<(Vec<u32>, usize)>)
    ensures
        r is Some <==> read_u32_list_spec(b@, pos as int) is Some,
        r is Some ==> read_u32_list_spec(b@, pos as int) == Some(
            (r.unwrap().0@, r.unwrap().1 as int),
        ),
{
    match read_u32(b, pos) {
        Some((n, p)) => read_u32_run(b, p, n),
        None => None,
    }
}

/// Length prefix of a message longer than a `u32` can count.
#[derive(Debug, Clone, Copy, PartialEq, Eq)]
pub struct SendingInvalidLengthPrefixError;

/// Length prefix received that does not fit a `usize`.
#[derive(Debug, Clone, Copy, PartialEq, Eq)]
pub struct InvalidLengthPrefixReceivedError;

/// The framed form of a message: its length as a big-endian `u32`, then the
/// message. Fails when the message has more than `u32::MAX` bytes.
pub fn frame(message: &[u8]) -> (r: Result<Vec<u8>, SendingInvalidLengthPrefixError>)
    ensures
        r is Ok <==> message@.len() <= u32_limit(),
        r is Ok ==> r.unwrap()@ == bytes_field(message@),
{
    let mut out: Vec<u8> = Vec::new();
    if push_bytes(&mut out, message) {
        assert(out@ =~= bytes_field(message@));
        Ok(out)
    } else {
        Err(SendingInvalidLengthPrefixError)
    }
}

/// The message length that a received 4-byte prefix announces.
pub fn message_length(prefix: [u8; 4]) -> (r: Result<usize, InvalidLengthPrefixReceivedError>)
    ensures
        r is Ok <==> be32_value(prefix[0], prefix[1], prefix[2], prefix[3]) <= usize::MAX,
        r is Ok ==> r.unwrap() == be32_value(prefix[0], prefix[1], prefix[2], prefix[3]),
{
    let v = ((prefix[0] as u32) << 24u32) | ((prefix[1] as u32) << 16u32) | ((prefix[2] as u32)
        << 8u32) | (prefix[3] as u32);
    if v as u64 <= usize::MAX as u64 {
        Ok(v as usize)
    } else {
        Err(InvalidLengthPrefixReceivedError)
    }
}

/// Whether two byte slices hold the same bytes.
pub fn bytes_eq(a: &[u8], b: &[u8]) -> (r: bool)
    ensures
        r == (a@ == b@),
{
    if a.len() != b.len() {
        return false;
    }
    let mut i: usize = 0;
    while i < b.len()
        invariant
            0 <= i <= b.len(),
            a@.len() == b@.len(),
            a@.subrange(0, i as int) == b@.subrange(0, i as int),
        decreases b.len() - i,
    {
        if a[i] != b[i] {
            assert(a@[i as int] != b@[i as int]);
            return false;
        }
        i = i + 1;
        assert(a@.subrange(0, i as int) =~= b@.subrange(0, i as int));
    }
    assert(a@ =~= a@.subrange(0, b@.len() as int));
    assert(b@ =~= b@.subrange(0, b@.len() as int));
    true
}

/// Whether two strings hold the same characters.
pub fn str_eq(a: &str, b: &str) -> (r: bool)
    ensures
        r == (a@ == b@),
{
    proof {
        vstd::utf8::encode_utf8_decode_utf8(a@);
        vstd::utf8::encode_utf8_decode_utf8(b@);
    }
    bytes_eq(a.as_bytes(), b.as_bytes())
}

/// The string whose UTF-8 encoding is `b`, if `b` is valid UTF-8.
pub fn string_from_utf8(b: &[u8]) -> (r: Option<String>)
    ensures
        r is Some <==> valid_utf8(b@),
        r is Some ==> r.unwrap()@ == decode_utf8(b@),
{
    match utf8_str(b) {
        Some(s) => {
            proof {
                vstd::utf8::encode_utf8_decode_utf8(s@);
            }
            Some(s.to_owned())
        },
        None => None,
    }
}

} // verus!

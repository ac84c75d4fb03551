//! Paths as the system has them: any bytes, not only valid Unicode.
//!
//! The engine builds paths by joining text, so it holds a path as text in
//! which each byte that is ASCII other than `%` stands for itself and every
//! other byte is written `%XY`, `XY` being its two uppercase hexadecimal
//! digits. Joining such texts with ASCII components joins the bytes they
//! stand for, and [`path_bytes`] gives back exactly the bytes that
//! [`path_text`] was given (law [`path_text_round_trip`]), so the system
//! is always handed the very path it reported. [`show_path`] gives the
//! text a person sees, as `Path::display` shows it.
use vstd::prelude::*;
use vstd::utf8::{decode_utf8, encode_utf8, valid_utf8};

use crate::process::{decode_lossy, lossy_utf8};

verus! {

/// Whether a byte is written as `%XY`.
pub open spec fn needs_escape(b: u8) -> bool {
    b >= 128 || b == 37
}

/// The uppercase hexadecimal digit (as an ASCII byte) of `n`, below 16.
pub open spec fn hex_digit(n: u8) -> u8 {
    if n < 10 {
        (48 + n) as u8
    } else {
        (55 + n) as u8
    }
}

/// How one byte is written.
pub open spec fn escape_byte(b: u8) -> Seq<u8> {
    if needs_escape(b) {
        seq![37u8, hex_digit(b / 16), hex_digit(b % 16)]
    } else {
        seq![b]
    }
}

/// How a sequence of bytes is written, byte by byte.
pub open spec fn escape_bytes(b: Seq<u8>) -> Seq<u8>
    decreases b.len(),
{
    if b.len() == 0 {
        Seq::empty()
    } else {
        escape_bytes(b.drop_last()) + escape_byte(b.last())
    }
}

/// The value of an uppercase hexadecimal digit.
pub open spec fn hex_value(c: u8) -> Option<u8> {
    if 48 <= c <= 57 {
        Some((c - 48) as u8)
    } else if 65 <= c <= 70 {
        Some((c - 55) as u8)
    } else {
        None
    }
}

/// The bytes a written path stands for; `None` when a `%` is not followed
/// by two uppercase hexadecimal digits.
pub open spec fn unescape(t: Seq<u8>) -> Option<Seq<u8>>
    decreases t.len(),
{
    if t.len() == 0 {
        Some(Seq::empty())
    } else if t[0] == 37 {
        if t.len() >= 3 && hex_value(t[1]) is Some && hex_value(t[2]) is Some {
            match unescape(t.subrange(3, t.len() as int)) {
                Some(r) => Some(
                    seq![(hex_value(t[1])->0 * 16 + hex_value(t[2])->0) as u8] + r,
                ),
                None => None,
            }
        } else {
            None
        }
    } else {
        match unescape(t.drop_first()) {
            Some(r) => Some(seq![t[0]] + r),
            None => None,
        }
    }
}

/// The text that stands for the path with bytes `b`.
pub open spec fn path_text_of(b: Seq<u8>) -> Seq<char> {
    decode_utf8(escape_bytes(b))
}

/// The bytes of the path that the text `t` stands for.
pub open spec fn path_bytes_of(t: Seq<char>) -> Option<Seq<u8>> {
    unescape(encode_utf8(t))
}

/// What a person is shown for the path text `t`: its bytes decoded as
/// `Path::display` does (invalid UTF-8 replaced), or `t` itself when it
/// stands for no path.
pub open spec fn shown_path(t: Seq<char>) -> Seq<char> {
    match path_bytes_of(t) {
        Some(b) => lossy_utf8(b),
        None => t,
    }
}

proof fn lemma_escape_ascii(b: Seq<u8>)
    ensures
        forall|i: int| 0 <= i < escape_bytes(b).len() ==> #[trigger] escape_bytes(b)[i] < 128,
    decreases b.len(),
{
    if b.len() > 0 {
        lemma_escape_ascii(b.drop_last());
        let x = b.last();
        assert(x / 16 < 16 && x % 16 < 16);
        let e = escape_bytes(b);
        let a = escape_bytes(b.drop_last());
        assert forall|i: int| 0 <= i < e.len() implies #[trigger] e[i] < 128 by {
            if i < a.len() {
                assert(e[i] == a[i]);
            } else {
                assert(e[i] == escape_byte(x)[i - a.len()]);
            }
        }
    }
}

proof fn lemma_ascii_valid(b: Seq<u8>)
    requires
        forall|i: int| 0 <= i < b.len() ==> #[trigger] b[i] < 128,
    ensures
        valid_utf8(b),
    decreases b.len(),
{
    if b.len() > 0 {
        let x = b[0];
        assert((x & 0x7F) == x) by (bit_vector)
            requires
                x < 128,
        ;
        let rest = b.subrange(1, b.len() as int);
        assert forall|i: int| 0 <= i < rest.len() implies #[trigger] rest[i] < 128 by {
            assert(rest[i] == b[i + 1]);
        }
        lemma_ascii_valid(rest);
    }
}

proof fn lemma_escape_front(b: Seq<u8>)
    requires
        b.len() > 0,
    ensures
        escape_bytes(b) == escape_byte(b[0]) + escape_bytes(b.drop_first()),
    decreases b.len(),
{
    if b.len() == 1 {
        assert(b.drop_last() =~= Seq::<u8>::empty());
        assert(b.drop_first() =~= Seq::<u8>::empty());
        assert(escape_bytes(b) =~= escape_byte(b[0]) + escape_bytes(b.drop_first()));
    } else {
        let d = b.drop_last();
        lemma_escape_front(d);
        assert(d[0] == b[0]);
        assert(d.drop_first() =~= b.drop_first().drop_last());
        assert(b.drop_first().last() == b.last());
        assert(escape_bytes(b) =~= escape_byte(b[0]) + escape_bytes(b.drop_first()));
    }
}

proof fn lemma_unescape_escape(b: Seq<u8>)
    ensures
        unescape(escape_bytes(b)) == Some(b),
    decreases b.len(),
{
    if b.len() == 0 {
    } else {
        lemma_escape_front(b);
        lemma_unescape_escape(b.drop_first());
        let x = b[0];
        let t = escape_bytes(b);
        let r = escape_bytes(b.drop_first());
        if needs_escape(x) {
            let hi = x / 16;
            let lo = x % 16;
            assert(hi < 16 && lo < 16);
            assert(hex_value(hex_digit(hi)) == Some(hi));
            assert(hex_value(hex_digit(lo)) == Some(lo));
            assert(t[0] == 37 && t[1] == hex_digit(hi) && t[2] == hex_digit(lo));
            assert(t.subrange(3, t.len() as int) =~= r);
            assert((hi * 16 + lo) as u8 == x);
            assert(seq![x] + b.drop_first() =~= b);
        } else {
            assert(t[0] == x);
            assert(t.drop_first() =~= r);
            assert(seq![x] + b.drop_first() =~= b);
        }
    }
}

/// Text written for a path always stands for exactly that path.
pub proof fn path_text_round_trip(b: Seq<u8>)
    ensures
        path_bytes_of(path_text_of(b)) == Some(b),
        valid_utf8(escape_bytes(b)),
        encode_utf8(path_text_of(b)) == escape_bytes(b),
{
    lemma_escape_ascii(b);
    lemma_ascii_valid(escape_bytes(b));
    vstd::utf8::decode_utf8_encode_utf8(escape_bytes(b));
    lemma_unescape_escape(b);
}

/// The uppercase hexadecimal digit of `n`.
fn hex_char(n: u8) -> (r: u8)
    requires
        n < 16,
    ensures
        r == hex_digit(n),
{
    if n < 10 {
        48 + n
    } else {
        55 + n
    }
}

/// Decodes UTF-8 with `String::from_utf8`. Assumed, as its documentation
/// states: the bytes give a string exactly when they are valid UTF-8, and
/// then the string holds the characters they encode.
#[verifier::external_body]
fn utf8_text(bytes: Vec<u8>) -> (r: Option<String>)
    ensures
        r is Some == valid_utf8(bytes@),
        r matches Some(s) ==> s@ == decode_utf8(bytes@),
{
    String::from_utf8(bytes).ok()
}

/// The text that stands for the path with the bytes `bytes`.
pub fn path_text(bytes: &[u8]) -> (r: String)
    ensures
        r@ == path_text_of(bytes@),
{
    let n = bytes.len();
    let mut out: Vec<u8> = Vec::new();
    let mut i: usize = 0;
    while i < n
        invariant
            n == bytes@.len(),
            i <= n,
            out@ == escape_bytes(bytes@.take(i as int)),
        decreases n - i,
    {
        let x = bytes[i];
        assert(bytes@.take(i + 1).drop_last() =~= bytes@.take(i as int));
        if x >= 128 || x == 37 {
            out.push(37);
            out.push(hex_char(x / 16));
            out.push(hex_char(x % 16));
        } else {
            out.push(x);
        }
        i = i + 1;
        assert(out@ =~= escape_bytes(bytes@.take(i as int)));
    }
    assert(bytes@.take(n as int) =~= bytes@);
    proof {
        path_text_round_trip(bytes@);
    }
    match utf8_text(out) {
        Some(s) => s,
        None => {
            assert(false);
            String::new()
        },
    }
}

/// `r` with `o` in front, if there is one.
pub open spec fn prepend(o: Seq<u8>, r: Option<Seq<u8>>) -> Option<Seq<u8>> {
    match r {
        Some(x) => Some(o + x),
        None => None,
    }
}

/// The value of an uppercase hexadecimal digit, if it is one.
fn hex_of(c: u8) -> (r: Option<u8>)
    ensures
        r == hex_value(c),
{
    if 48 <= c && c <= 57 {
        Some(c - 48)
    } else if 65 <= c && c <= 70 {
        Some(c - 55)
    } else {
        None
    }
}

/// The bytes of the path that `text` stands for (see [`path_bytes_of`]).
pub fn path_bytes(text: &str) -> (r: Option<Vec<u8>>)
    ensures
        match (r, path_bytes_of(text@)) {
            (Some(v), Some(b)) => v@ == b,
            (None, None) => true,
            _ => false,
        },
{
    let t = text.as_bytes();
    let ghost tb = t@;
    let n = t.len();
    let mut out: Vec<u8> = Vec::new();
    let mut i: usize = 0;
    assert(tb.subrange(0, n as int) =~= tb);
    while i < n
        invariant
            n == tb.len(),
            tb == t@,
            tb == encode_utf8(text@),
            i <= n,
            unescape(tb) == prepend(out@, unescape(tb.subrange(i as int, n as int))),
        decreases n - i,
    {
        let ghost s = tb.subrange(i as int, n as int);
        assert(s[0] == t[i as int]);
        if t[i] == 37 {
            if n - i > 2 {
                match (hex_of(t[i + 1]), hex_of(t[i + 2])) {
                    (Some(hi), Some(lo)) => {
                        assert(s[1] == t[i + 1] && s[2] == t[i + 2]);
                        assert(s.subrange(3, s.len() as int) =~= tb.subrange(i + 3, n as int));
                        let v: u8 = hi * 16 + lo;
                        let ghost before = out@;
                        out.push(v);
                        proof {
                            let rest = unescape(tb.subrange(i + 3, n as int));
                            assert(unescape(s) == prepend(seq![v], rest));
                            match rest {
                                Some(x) => {
                                    assert(before + (seq![v] + x) =~= out@ + x);
                                },
                                None => {},
                            }
                        }
                        i = i + 3;
                    },
                    _ => {
                        return None;
                    },
                }
            } else {
                return None;
            }
        } else {
            assert(s.drop_first() =~= tb.subrange(i + 1, n as int));
            let ghost before = out@;
            out.push(t[i]);
            proof {
                match unescape(tb.subrange(i + 1, n as int)) {
                    Some(x) => {
                        assert(before + (seq![t[i as int]] + x) =~= out@ + x);
                    },
                    None => {},
                }
            }
            i = i + 1;
        }
    }
    assert(tb.subrange(n as int, n as int) =~= Seq::<u8>::empty());
    assert(out@ + Seq::<u8>::empty() =~= out@);
    Some(out)
}

/// The text of a path that may be missing.
pub open spec fn path_texts(d: Option<Seq<u8>>) -> Option<Seq<char>> {
    match d {
        Some(b) => Some(path_text_of(b)),
        None => None,
    }
}

/// The text of a path that may be missing (see [`path_text`]).
pub fn optional_path_text(d: Option<Vec<u8>>) -> (r: Option<String>)
    ensures
        r.deep_view() == path_texts(d.deep_view()),
{
    match d {
        Some(b) => {
            assert(b.deep_view() =~= b@);
            Some(path_text(b.as_slice()))
        },
        None => None,
    }
}

/// What a person is shown for the path text `text` (see [`shown_path`]).
pub fn show_path(text: &str) -> (r: String)
    ensures
        r@ == shown_path(text@),
{
    match path_bytes(text) {
        Some(b) => decode_lossy(b.as_slice()),
        None => String::from_str(text),
    }
}

} // verus!

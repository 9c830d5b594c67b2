//! A lossless serialized form for `PK`: a small, self-describing byte
//! format — one tag byte for the active variant, integers as a sign byte
//! plus eight little-endian magnitude bytes, text as an eight-byte length
//! followed by its UTF-8 bytes — so a key can travel to a UI layer and
//! come back with the same active variant and the same value, without
//! external type metadata.

use vstd::prelude::*;
use vstd::bytes::{spec_u64_from_le_bytes, spec_u64_to_le_bytes, lemma_auto_spec_u64_to_from_le_bytes, u64_from_le_bytes, u64_to_le_bytes};
use vstd::utf8::{encode_utf8, decode_utf8, valid_utf8, encode_utf8_valid_utf8, encode_utf8_decode_utf8};
use vstd::slice::{slice_subrange, slice_to_vec};
use crate::ui::{PK, PKView};

verus! {

/// The serialized form of one integer field: a sign byte (1 for negative)
/// followed by the eight little-endian bytes of the magnitude.
pub open spec fn enc_int(v: int) -> Seq<u8> {
    if v < 0 {
        seq![1u8] + spec_u64_to_le_bytes((-v) as u64)
    } else {
        seq![0u8] + spec_u64_to_le_bytes(v as u64)
    }
}

/// The serialized form of one text field: the eight little-endian bytes
/// of the UTF-8 length, followed by the UTF-8 bytes themselves.
pub open spec fn enc_chars(s: Seq<char>) -> Seq<u8> {
    spec_u64_to_le_bytes(encode_utf8(s).len() as u64) + encode_utf8(s)
}

/// The serialized form of one optional text field: a presence byte,
/// followed by the text field when present.
pub open spec fn enc_opt_chars(o: Option<Seq<char>>) -> Seq<u8> {
    match o {
        Some(s) => seq![1u8] + enc_chars(s),
        None => seq![0u8],
    }
}

/// The serialized form of a primary key: a tag byte naming the active
/// variant, followed by the variant's fields in order.
pub open spec fn enc_pk(k: PKView) -> Seq<u8> {
    match k {
        PKView::Text(s) => seq![0u8] + enc_chars(s),
        PKView::Int16(v) => seq![1u8] + enc_int(v as int),
        PKView::Int32(v) => seq![2u8] + enc_int(v as int),
        PKView::Int64(v) => seq![3u8] + enc_int(v as int),
        PKView::Tup2(a, b) => seq![4u8] + enc_int(a as int) + enc_int(b as int),
        PKView::Tup3(a, b, c) => seq![5u8] + enc_int(a as int) + enc_int(b as int) + enc_int(
            c as int,
        ),
        PKView::ISIO(a, s, b, o) => seq![6u8] + enc_int(a as int) + enc_chars(s) + enc_int(b as int)
            + enc_opt_chars(o),
    }
}

/// Read one integer field at position `i`: the signed value and the
/// position just past it.
pub open spec fn parse_int_at(b: Seq<u8>, i: int) -> Option<(int, int)> {
    if 0 <= i && i + 9 <= b.len() {
        let mag = spec_u64_from_le_bytes(b.subrange(i + 1, i + 9)) as int;
        if b[i] == 0 {
            Some((mag, i + 9))
        } else if b[i] == 1 {
            Some((-mag, i + 9))
        } else {
            None
        }
    } else {
        None
    }
}

/// Read one text field at position `i`: the character sequence and the
/// position just past it. Fails when the recorded length overruns the
/// buffer or the recorded bytes are not valid UTF-8.
pub open spec fn parse_chars_at(b: Seq<u8>, i: int) -> Option<(Seq<char>, int)> {
    if 0 <= i && i + 8 <= b.len() {
        let n = spec_u64_from_le_bytes(b.subrange(i, i + 8)) as int;
        if i + 8 + n <= b.len() && valid_utf8(b.subrange(i + 8, i + 8 + n)) {
            Some((decode_utf8(b.subrange(i + 8, i + 8 + n)), i + 8 + n))
        } else {
            None
        }
    } else {
        None
    }
}

/// Read one optional text field at position `i`.
pub open spec fn parse_opt_chars_at(b: Seq<u8>, i: int) -> Option<(Option<Seq<char>>, int)> {
    if 0 <= i && i < b.len() {
        if b[i] == 0 {
            Some((None, i + 1))
        } else if b[i] == 1 {
            match parse_chars_at(b, i + 1) {
                Some((s, j)) => Some((Some(s), j)),
                None => None,
            }
        } else {
            None
        }
    } else {
        None
    }
}

/// The value a serialized buffer stands for, if any: the tag byte picks
/// the variant, the fields follow, and the buffer must hold nothing else.
/// Each integer field must lie within its variant's range.
pub open spec fn parse_pk(b: Seq<u8>) -> Option<PKView> {
    if b.len() == 0 {
        None
    } else if b[0] == 0 {
        match parse_chars_at(b, 1) {
            Some((s, j)) => if j == b.len() {
                Some(PKView::Text(s))
            } else {
                None
            },
            None => None,
        }
    } else if b[0] == 1 {
        match parse_int_at(b, 1) {
            Some((v, j)) => if j == b.len() && -0x8000 <= v < 0x8000 {
                Some(PKView::Int16(v as i16))
            } else {
                None
            },
            None => None,
        }
    } else if b[0] == 2 {
        match parse_int_at(b, 1) {
            Some((v, j)) => if j == b.len() && -0x8000_0000 <= v < 0x8000_0000 {
                Some(PKView::Int32(v as i32))
            } else {
                None
            },
            None => None,
        }
    } else if b[0] == 3 {
        match parse_int_at(b, 1) {
            Some((v, j)) => if j == b.len() && -0x8000_0000_0000_0000 <= v
                < 0x8000_0000_0000_0000 {
                Some(PKView::Int64(v as i64))
            } else {
                None
            },
            None => None,
        }
    } else if b[0] == 4 {
        match parse_int_at(b, 1) {
            Some((x, j)) => match parse_int_at(b, j) {
                Some((y, k)) => if k == b.len() && -0x8000_0000 <= x < 0x8000_0000 && -0x8000_0000
                    <= y < 0x8000_0000 {
                    Some(PKView::Tup2(x as i32, y as i32))
                } else {
                    None
                },
                None => None,
            },
            None => None,
        }
    } else if b[0] == 5 {
        match parse_int_at(b, 1) {
            Some((x, j)) => match parse_int_at(b, j) {
                Some((y, k)) => match parse_int_at(b, k) {
                    Some((z, l)) => if l == b.len() && -0x8000_0000 <= x < 0x8000_0000
                        && -0x8000_0000 <= y < 0x8000_0000 && -0x8000_0000 <= z < 0x8000_0000 {
                        Some(PKView::Tup3(x as i32, y as i32, z as i32))
                    } else {
                        None
                    },
                    None => None,
                },
                None => None,
            },
            None => None,
        }
    } else if b[0] == 6 {
        match parse_int_at(b, 1) {
            Some((x, j)) => match parse_chars_at(b, j) {
                Some((s, k)) => match parse_int_at(b, k) {
                    Some((y, l)) => match parse_opt_chars_at(b, l) {
                        Some((o, m)) => if m == b.len() && -0x8000_0000 <= x < 0x8000_0000
                            && -0x8000_0000 <= y < 0x8000_0000 {
                            Some(PKView::ISIO(x as i32, s, y as i32, o))
                        } else {
                            None
                        },
                        None => None,
                    },
                    None => None,
                },
                None => None,
            },
            None => None,
        }
    } else {
        None
    }
}

/// A key value whose text fields fit the format's eight-byte lengths.
/// Every key built from actual strings satisfies this; only a character
/// sequence whose UTF-8 form would exceed `u64::MAX` bytes falls outside.
pub open spec fn wf_pk_view(k: PKView) -> bool {
    match k {
        PKView::Text(s) => encode_utf8(s).len() <= u64::MAX,
        PKView::Int16(_) => true,
        PKView::Int32(_) => true,
        PKView::Int64(_) => true,
        PKView::Tup2(_, _) => true,
        PKView::Tup3(_, _, _) => true,
        PKView::ISIO(_, s, _, o) => encode_utf8(s).len() <= u64::MAX && match o {
            Some(t) => encode_utf8(t).len() <= u64::MAX,
            None => true,
        },
    }
}

proof fn lemma_parse_int_enc(b: Seq<u8>, i: int, v: int)
    requires
        -0x8000_0000_0000_0000 <= v <= 0x7fff_ffff_ffff_ffff,
        0 <= i,
        i + 9 <= b.len(),
        b.subrange(i, i + 9) == enc_int(v),
    ensures
        parse_int_at(b, i) == Some((v, i + 9)),
        enc_int(v).len() == 9,
{
    lemma_auto_spec_u64_to_from_le_bytes();
    let e = enc_int(v);
    let mag: u64 = if v < 0 {
        (-v) as u64
    } else {
        v as u64
    };
    assert(e == seq![if v < 0 { 1u8 } else { 0u8 }] + spec_u64_to_le_bytes(mag));
    assert(e.len() == 9);
    assert(b.subrange(i, i + 9)[0] == b[i]);
    assert(b[i] == e[0]);
    assert(b.subrange(i + 1, i + 9) =~= e.subrange(1, 9));
    assert(e.subrange(1, 9) =~= spec_u64_to_le_bytes(mag));
    assert(spec_u64_from_le_bytes(b.subrange(i + 1, i + 9)) == mag);
}

proof fn lemma_parse_chars_enc(b: Seq<u8>, i: int, s: Seq<char>)
    requires
        encode_utf8(s).len() <= u64::MAX,
        0 <= i,
        i + enc_chars(s).len() <= b.len(),
        b.subrange(i, i + enc_chars(s).len()) == enc_chars(s),
    ensures
        enc_chars(s).len() == 8 + encode_utf8(s).len(),
        parse_chars_at(b, i) == Some((s, i + enc_chars(s).len())),
{
    lemma_auto_spec_u64_to_from_le_bytes();
    encode_utf8_valid_utf8(s);
    encode_utf8_decode_utf8(s);
    let u = encode_utf8(s);
    let e = enc_chars(s);
    assert(e.len() == 8 + u.len());
    assert(b.subrange(i, i + 8) =~= spec_u64_to_le_bytes(u.len() as u64)) by {
        assert forall|m: int| 0 <= m < 8 implies #[trigger] (b.subrange(i, i + 8)[m])
            == spec_u64_to_le_bytes(u.len() as u64)[m] by {
            assert(b.subrange(i, i + e.len())[m] == e[m]);
        }
    }
    assert(spec_u64_from_le_bytes(b.subrange(i, i + 8)) == u.len() as u64);
    assert(b.subrange(i + 8, i + 8 + u.len()) =~= u) by {
        assert forall|m: int| 0 <= m < u.len() implies b.subrange(i + 8, i + 8 + u.len())[m]
            == u[m] by {
            assert(b.subrange(i, i + e.len())[m + 8] == e[m + 8]);
        }
    }
}

proof fn lemma_parse_opt_enc(b: Seq<u8>, i: int, o: Option<Seq<char>>)
    requires
        (o matches Some(s) ==> encode_utf8(s).len() <= u64::MAX),
        0 <= i,
        i + enc_opt_chars(o).len() <= b.len(),
        b.subrange(i, i + enc_opt_chars(o).len()) == enc_opt_chars(o),
    ensures
        enc_opt_chars(o).len() == (match o {
            Some(s) => 9 + encode_utf8(s).len() as int,
            None => 1int,
        }),
        parse_opt_chars_at(b, i) == Some((o, i + enc_opt_chars(o).len())),
{
    let e = enc_opt_chars(o);
    assert(b.subrange(i, i + e.len())[0] == b[i]);
    match o {
        Some(s) => {
            assert(enc_chars(s).len() == 8 + encode_utf8(s).len()) by {
                lemma_auto_spec_u64_to_from_le_bytes();
            }
            assert(b[i] == 1u8);
            assert(b.subrange(i + 1, i + 1 + enc_chars(s).len()) =~= enc_chars(s)) by {
                assert forall|m: int| 0 <= m < enc_chars(s).len() implies b.subrange(
                    i + 1,
                    i + 1 + enc_chars(s).len(),
                )[m] == enc_chars(s)[m] by {
                    assert(b.subrange(i, i + e.len())[m + 1] == e[m + 1]);
                }
            }
            lemma_parse_chars_enc(b, i + 1, s);
        },
        None => {
            assert(b[i] == 0u8);
        },
    }
}

/// Law: serialization is lossless. Decoding the serialized form of any
/// primary key yields exactly the original value, with the same active
/// variant — for every key whose text fields a real string can hold
/// (see `wf_pk_view`).
pub proof fn lemma_pk_round_trip(k: PKView)
    requires
        wf_pk_view(k),
    ensures
        parse_pk(enc_pk(k)) == Some(k),
{
    let b = enc_pk(k);
    match k {
        PKView::Text(s) => {
            assert(b.subrange(1, 1 + enc_chars(s).len() as int) =~= enc_chars(s));
            lemma_parse_chars_enc(b, 1, s);
            assert(b[0] == 0u8);
        },
        PKView::Int16(v) => {
            assert(enc_int(v as int).len() == 9) by {
                lemma_auto_spec_u64_to_from_le_bytes();
            }
            assert(b.subrange(1, 10) =~= enc_int(v as int));
            lemma_parse_int_enc(b, 1, v as int);
            assert(b[0] == 1u8);
        },
        PKView::Int32(v) => {
            assert(enc_int(v as int).len() == 9) by {
                lemma_auto_spec_u64_to_from_le_bytes();
            }
            assert(b.subrange(1, 10) =~= enc_int(v as int));
            lemma_parse_int_enc(b, 1, v as int);
            assert(b[0] == 2u8);
        },
        PKView::Int64(v) => {
            assert(enc_int(v as int).len() == 9) by {
                lemma_auto_spec_u64_to_from_le_bytes();
            }
            assert(b.subrange(1, 10) =~= enc_int(v as int));
            lemma_parse_int_enc(b, 1, v as int);
            assert(b[0] == 3u8);
        },
        PKView::Tup2(x, y) => {
            assert(enc_int(x as int).len() == 9 && enc_int(y as int).len() == 9) by {
                lemma_auto_spec_u64_to_from_le_bytes();
            }
            assert(b.subrange(1, 10) =~= enc_int(x as int));
            assert(b.subrange(10, 19) =~= enc_int(y as int));
            lemma_parse_int_enc(b, 1, x as int);
            lemma_parse_int_enc(b, 10, y as int);
            assert(b[0] == 4u8);
        },
        PKView::Tup3(x, y, z) => {
            assert(enc_int(x as int).len() == 9 && enc_int(y as int).len() == 9 && enc_int(
                z as int,
            ).len() == 9) by {
                lemma_auto_spec_u64_to_from_le_bytes();
            }
            assert(b.subrange(1, 10) =~= enc_int(x as int));
            assert(b.subrange(10, 19) =~= enc_int(y as int));
            assert(b.subrange(19, 28) =~= enc_int(z as int));
            lemma_parse_int_enc(b, 1, x as int);
            lemma_parse_int_enc(b, 10, y as int);
            lemma_parse_int_enc(b, 19, z as int);
            assert(b[0] == 5u8);
        },
        PKView::ISIO(x, s, y, o) => {
            let l2 = enc_chars(s).len() as int;
            let l4 = enc_opt_chars(o).len() as int;
            assert(enc_int(x as int).len() == 9 && enc_int(y as int).len() == 9 && l2 == 8
                + encode_utf8(s).len()) by {
                lemma_auto_spec_u64_to_from_le_bytes();
            }
            assert(b.len() == 19 + l2 + l4);
            assert(b.subrange(1, 10) =~= enc_int(x as int));
            assert(b.subrange(10, 10 + l2) =~= enc_chars(s));
            assert(b.subrange(10 + l2, 19 + l2) =~= enc_int(y as int));
            assert(b.subrange(19 + l2, 19 + l2 + l4) =~= enc_opt_chars(o));
            lemma_parse_int_enc(b, 1, x as int);
            lemma_parse_chars_enc(b, 10, s);
            lemma_parse_int_enc(b, 10 + l2, y as int);
            lemma_parse_opt_enc(b, 19 + l2, o);
            assert(b[0] == 6u8);
        },
    }
}

/// The character sequences of an optional string.
pub open spec fn opt_chars(o: Option<String>) -> Option<Seq<char>> {
    match o {
        Some(s) => Some(s@),
        None => None,
    }
}

/// Relies on `String::from_utf8`: it succeeds exactly on input that is
/// valid UTF-8, and the returned string is the character sequence those
/// bytes encode.
#[verifier::external_body]
fn utf8_to_string(v: Vec<u8>) -> (r: Option<String>)
    ensures
        r is Some <==> valid_utf8(v@),
        (r matches Some(s) ==> s@ == decode_utf8(v@)),
{
    String::from_utf8(v).ok()
}

/// Append one integer field in serialized form.
fn push_int(out: &mut Vec<u8>, v: i64)
    ensures
        final(out)@ == old(out)@ + enc_int(v as int),
{
    if v < 0 {
        out.push(1u8);
        let mag: u64 = (-(v as i128)) as u64;
        let mut le = u64_to_le_bytes(mag);
        out.append(&mut le);
        proof {
            assert(out@ =~= old(out)@ + enc_int(v as int));
        }
    } else {
        out.push(0u8);
        let mut le = u64_to_le_bytes(v as u64);
        out.append(&mut le);
        proof {
            assert(out@ =~= old(out)@ + enc_int(v as int));
        }
    }
}

/// Append one text field in serialized form.
fn push_chars(out: &mut Vec<u8>, s: &str)
    ensures
        final(out)@ == old(out)@ + enc_chars(s@),
        encode_utf8(s@).len() <= u64::MAX,
{
    let b = s.as_bytes();
    let n: u64 = b.len() as u64;
    let mut le = u64_to_le_bytes(n);
    out.append(&mut le);
    let mut ub = slice_to_vec(b);
    out.append(&mut ub);
    proof {
        assert(out@ =~= old(out)@ + enc_chars(s@));
    }
}

/// Read one integer field, refusing a magnitude no `i64` can hold.
fn read_int(bytes: &[u8], i: usize) -> (r: Option<(i64, usize)>)
    ensures
        (r matches Some((v, j)) ==> parse_int_at(bytes@, i as int) == Some((v as int, j as int))),
        r is None ==> (parse_int_at(bytes@, i as int) is None || (parse_int_at(
            bytes@,
            i as int,
        ) matches Some((v, j)) && (v < -0x8000_0000_0000_0000 || v > 0x7fff_ffff_ffff_ffff))),
{
    if bytes.len() < 9 || i > bytes.len() - 9 {
        return None;
    }
    let sign = *vstd::slice::slice_index_get(bytes, i);
    if sign > 1 {
        return None;
    }
    let le = slice_subrange(bytes, i + 1, i + 9);
    let mag = u64_from_le_bytes(le);
    if sign == 0 {
        if mag <= 0x7fff_ffff_ffff_ffffu64 {
            Some((mag as i64, i + 9))
        } else {
            None
        }
    } else {
        if mag < 0x8000_0000_0000_0000u64 {
            Some((-(mag as i64), i + 9))
        } else if mag == 0x8000_0000_0000_0000u64 {
            Some((i64::MIN, i + 9))
        } else {
            None
        }
    }
}

/// Read one text field.
fn read_chars(bytes: &[u8], i: usize) -> (r: Option<(String, usize)>)
    ensures
        (r matches Some((s, j)) ==> parse_chars_at(bytes@, i as int) == Some((s@, j as int))),
        r is None ==> parse_chars_at(bytes@, i as int) is None,
{
    if bytes.len() < 8 || i > bytes.len() - 8 {
        return None;
    }
    let le = slice_subrange(bytes, i, i + 8);
    let n64 = u64_from_le_bytes(le);
    let rem: u64 = (bytes.len() - (i + 8)) as u64;
    if n64 > rem {
        return None;
    }
    let n = n64 as usize;
    let sub = slice_subrange(bytes, i + 8, i + 8 + n);
    let v = slice_to_vec(sub);
    match utf8_to_string(v) {
        Some(s) => Some((s, i + 8 + n)),
        None => None,
    }
}

/// Read one optional text field.
fn read_opt_chars(bytes: &[u8], i: usize) -> (r: Option<(Option<String>, usize)>)
    ensures
        (r matches Some((o, j)) ==> parse_opt_chars_at(bytes@, i as int) == Some(
            (opt_chars(o), j as int),
        )),
        r is None ==> parse_opt_chars_at(bytes@, i as int) is None,
{
    if i >= bytes.len() {
        return None;
    }
    let tag = *vstd::slice::slice_index_get(bytes, i);
    if tag == 0 {
        Some((None, i + 1))
    } else if tag == 1 {
        match read_chars(bytes, i + 1) {
            Some((s, j)) => Some((Some(s), j)),
            None => None,
        }
    } else {
        None
    }
}

impl PK {
    /// Serialize this key into the crate's lossless byte form.
    pub fn encode(&self) -> (out: Vec<u8>)
        ensures
            out@ == enc_pk(self@),
            wf_pk_view(self@),
    {
        let mut out: Vec<u8> = Vec::new();
        match self {
            PK::Text(s) => {
                out.push(0u8);
                push_chars(&mut out, s.as_str());
            },
            PK::Int16(v) => {
                out.push(1u8);
                push_int(&mut out, *v as i64);
            },
            PK::Int32(v) => {
                out.push(2u8);
                push_int(&mut out, *v as i64);
            },
            PK::Int64(v) => {
                out.push(3u8);
                push_int(&mut out, *v);
            },
            PK::Tup2(a, b) => {
                out.push(4u8);
                push_int(&mut out, *a as i64);
                push_int(&mut out, *b as i64);
            },
            PK::Tup3(a, b, c) => {
                out.push(5u8);
                push_int(&mut out, *a as i64);
                push_int(&mut out, *b as i64);
                push_int(&mut out, *c as i64);
            },
            PK::ISIO(a, s, b, o) => {
                out.push(6u8);
                push_int(&mut out, *a as i64);
                push_chars(&mut out, s.as_str());
                push_int(&mut out, *b as i64);
                match o {
                    Some(t) => {
                        out.push(1u8);
                        push_chars(&mut out, t.as_str());
                    },
                    None => {
                        out.push(0u8);
                    },
                }
            },
        }
        proof {
            assert(out@ =~= enc_pk(self@));
        }
        out
    }

    /// Deserialize a key from the crate's byte form: exactly the buffers
    /// `parse_pk` accepts yield a key, and that key's value is the one
    /// the buffer stands for.
    pub fn decode(bytes: &[u8]) -> (r: Option<PK>)
        ensures
            (r matches Some(k) ==> parse_pk(bytes@) == Some(k@)),
            r is None ==> parse_pk(bytes@) is None,
    {
        if bytes.len() == 0 {
            return None;
        }
        let tag = *vstd::slice::slice_index_get(bytes, 0);
        if tag == 0 {
            match read_chars(bytes, 1) {
                Some((s, j)) => if j == bytes.len() {
                    Some(PK::Text(s))
                } else {
                    None
                },
                None => None,
            }
        } else if tag == 1 {
            match read_int(bytes, 1) {
                Some((v, j)) => if j == bytes.len() && -0x8000i64 <= v && v < 0x8000i64 {
                    Some(PK::Int16(v as i16))
                } else {
                    None
                },
                None => None,
            }
        } else if tag == 2 {
            match read_int(bytes, 1) {
                Some((v, j)) => if j == bytes.len() && -0x8000_0000i64 <= v && v
                    < 0x8000_0000i64 {
                    Some(PK::Int32(v as i32))
                } else {
                    None
                },
                None => None,
            }
        } else if tag == 3 {
            match read_int(bytes, 1) {
                Some((v, j)) => if j == bytes.len() {
                    Some(PK::Int64(v))
                } else {
                    None
                },
                None => None,
            }
        } else if tag == 4 {
            match read_int(bytes, 1) {
                Some((x, j)) => match read_int(bytes, j) {
                    Some((y, k)) => if k == bytes.len() && -0x8000_0000i64 <= x && x
                        < 0x8000_0000i64 && -0x8000_0000i64 <= y && y < 0x8000_0000i64 {
                        Some(PK::Tup2(x as i32, y as i32))
                    } else {
                        None
                    },
                    None => None,
                },
                None => None,
            }
        } else if tag == 5 {
            match read_int(bytes, 1) {
                Some((x, j)) => match read_int(bytes, j) {
                    Some((y, k)) => match read_int(bytes, k) {
                        Some((z, l)) => if l == bytes.len() && -0x8000_0000i64 <= x && x
                            < 0x8000_0000i64 && -0x8000_0000i64 <= y && y < 0x8000_0000i64
                            && -0x8000_0000i64 <= z && z < 0x8000_0000i64 {
                            Some(PK::Tup3(x as i32, y as i32, z as i32))
                        } else {
                            None
                        },
                        None => None,
                    },
                    None => None,
                },
                None => None,
            }
        } else if tag == 6 {
            match read_int(bytes, 1) {
                Some((x, j)) => match read_chars(bytes, j) {
                    Some((s, k)) => match read_int(bytes, k) {
                        Some((y, l)) => match read_opt_chars(bytes, l) {
                            Some((o, m)) => if m == bytes.len() && -0x8000_0000i64 <= x && x
                                < 0x8000_0000i64 && -0x8000_0000i64 <= y && y < 0x8000_0000i64 {
                                Some(PK::ISIO(x as i32, s, y as i32, o))
                            } else {
                                None
                            },
                            None => None,
                        },
                        None => None,
                    },
                    None => None,
                },
                None => None,
            }
        } else {
            None
        }
    }
}

} // verus!

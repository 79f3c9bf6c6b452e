use vstd::prelude::*;

verus! {

/// The base64 transfer encoding used by the attachment codec: the standard
/// alphabet `A..Z a..z 0..9 + /` with `=` padding, over bytes.

/// The alphabet byte that stands for the six-bit value `x`.
pub open spec fn b64_char(x: u8) -> u8 {
    if x < 26 {
        (x + 65) as u8
    } else if x < 52 {
        (x + 71) as u8
    } else if x < 62 {
        (x - 4) as u8
    } else if x == 62 {
        43u8
    } else {
        47u8
    }
}

/// The six-bit value of an alphabet byte, or `None` for a byte outside the
/// alphabet (the padding byte `=` included).
pub open spec fn b64_val(c: u8) -> Option<u8> {
    if 65 <= c && c <= 90 {
        Some((c - 65) as u8)
    } else if 97 <= c && c <= 122 {
        Some((c - 71) as u8)
    } else if 48 <= c && c <= 57 {
        Some((c + 4) as u8)
    } else if c == 43 {
        Some(62u8)
    } else if c == 47 {
        Some(63u8)
    } else {
        None
    }
}

/// The first byte rebuilt from two six-bit values.
pub open spec fn dec_b0(a: u8, b: u8) -> u8 {
    (a << 2) | (b >> 4)
}

/// The second byte rebuilt from two six-bit values.
pub open spec fn dec_b1(b: u8, c: u8) -> u8 {
    ((b & 15) << 4) | (c >> 2)
}

/// The third byte rebuilt from two six-bit values.
pub open spec fn dec_b2(c: u8, d: u8) -> u8 {
    ((c & 3) << 6) | d
}

/// Base64 of a byte sequence: groups of three bytes become four alphabet
/// bytes; a final group of one or two bytes is padded with `=`.
pub open spec fn b64_encode_seq(b: Seq<u8>) -> Seq<u8>
    decreases b.len(),
{
    if b.len() == 0 {
        Seq::<u8>::empty()
    } else if b.len() == 1 {
        seq![b64_char(b[0] >> 2), b64_char((b[0] & 3) << 4), 61u8, 61u8]
    } else if b.len() == 2 {
        seq![
            b64_char(b[0] >> 2),
            b64_char(((b[0] & 3) << 4) | (b[1] >> 4)),
            b64_char((b[1] & 15) << 2),
            61u8,
        ]
    } else {
        seq![
            b64_char(b[0] >> 2),
            b64_char(((b[0] & 3) << 4) | (b[1] >> 4)),
            b64_char(((b[1] & 15) << 2) | (b[2] >> 6)),
            b64_char(b[2] & 63),
        ] + b64_encode_seq(b.skip(3))
    }
}

/// Decoding of the last four bytes of a base64 text, where `=` padding may
/// stand; the bits that padding discards must be zero.
pub open spec fn b64_decode_tail(a: u8, b: u8, c: u8, d: u8) -> Option<Seq<u8>> {
    if c == 61 && d == 61 {
        match (b64_val(a), b64_val(b)) {
            (Some(x), Some(y)) => if y & 15 == 0 {
                Some(seq![dec_b0(x, y)])
            } else {
                None
            },
            _ => None,
        }
    } else if d == 61 {
        match (b64_val(a), b64_val(b), b64_val(c)) {
            (Some(x), Some(y), Some(z)) => if z & 3 == 0 {
                Some(seq![dec_b0(x, y), dec_b1(y, z)])
            } else {
                None
            },
            _ => None,
        }
    } else {
        match (b64_val(a), b64_val(b), b64_val(c), b64_val(d)) {
            (Some(x), Some(y), Some(z), Some(w)) => Some(
                seq![dec_b0(x, y), dec_b1(y, z), dec_b2(z, w)],
            ),
            _ => None,
        }
    }
}

/// Base64 decoding of a whole text; `None` where the text is not
/// well-formed base64.
pub open spec fn b64_decode_seq(s: Seq<u8>) -> Option<Seq<u8>>
    decreases s.len(),
{
    if s.len() == 0 {
        Some(Seq::<u8>::empty())
    } else if s.len() < 4 {
        None
    } else if s.len() == 4 {
        b64_decode_tail(s[0], s[1], s[2], s[3])
    } else {
        match (b64_val(s[0]), b64_val(s[1]), b64_val(s[2]), b64_val(s[3])) {
            (Some(x), Some(y), Some(z), Some(w)) => match b64_decode_seq(s.skip(4)) {
                Some(rest) => Some(seq![dec_b0(x, y), dec_b1(y, z), dec_b2(z, w)] + rest),
                None => None,
            },
            _ => None,
        }
    }
}

proof fn lemma_val_of_char(x: u8)
    requires
        x < 64,
    ensures
        b64_val(b64_char(x)) == Some(x),
        b64_char(x) != 61,
{
}

proof fn lemma_split1(b0: u8)
    ensures
        b0 >> 2 < 64,
        (b0 & 3) << 4 < 64,
        ((b0 & 3) << 4) & 15 == 0,
        dec_b0(b0 >> 2, (b0 & 3) << 4) == b0,
{
    assert((b0 >> 2) < 64 && ((b0 & 3) << 4) < 64 && (((b0 & 3) << 4) & 15) == 0) by (bit_vector);
    assert(((b0 >> 2) << 2) | (((b0 & 3) << 4) >> 4) == b0) by (bit_vector);
}

proof fn lemma_split2(b0: u8, b1: u8)
    ensures
        b0 >> 2 < 64,
        (((b0 & 3) << 4) | (b1 >> 4)) < 64,
        (b1 & 15) << 2 < 64,
        ((b1 & 15) << 2) & 3 == 0,
        dec_b0(b0 >> 2, ((b0 & 3) << 4) | (b1 >> 4)) == b0,
        dec_b1(((b0 & 3) << 4) | (b1 >> 4), (b1 & 15) << 2) == b1,
{
    assert((b0 >> 2) < 64 && (((b0 & 3) << 4) | (b1 >> 4)) < 64 && ((b1 & 15) << 2) < 64 && (((b1
        & 15) << 2) & 3) == 0) by (bit_vector);
    assert(((b0 >> 2) << 2) | ((((b0 & 3) << 4) | (b1 >> 4)) >> 4) == b0) by (bit_vector);
    assert((((((b0 & 3) << 4) | (b1 >> 4)) & 15) << 4) | (((b1 & 15) << 2) >> 2) == b1)
        by (bit_vector);
}

proof fn lemma_split3(b0: u8, b1: u8, b2: u8)
    ensures
        b0 >> 2 < 64,
        (((b0 & 3) << 4) | (b1 >> 4)) < 64,
        (((b1 & 15) << 2) | (b2 >> 6)) < 64,
        b2 & 63 < 64,
        dec_b0(b0 >> 2, ((b0 & 3) << 4) | (b1 >> 4)) == b0,
        dec_b1(((b0 & 3) << 4) | (b1 >> 4), ((b1 & 15) << 2) | (b2 >> 6)) == b1,
        dec_b2(((b1 & 15) << 2) | (b2 >> 6), b2 & 63) == b2,
{
    assert((b0 >> 2) < 64 && (((b0 & 3) << 4) | (b1 >> 4)) < 64 && ((((b1 & 15) << 2) | (b2 >> 6)))
        < 64 && (b2 & 63) < 64) by (bit_vector);
    assert(((b0 >> 2) << 2) | ((((b0 & 3) << 4) | (b1 >> 4)) >> 4) == b0) by (bit_vector);
    assert((((((b0 & 3) << 4) | (b1 >> 4)) & 15) << 4) | ((((b1 & 15) << 2) | (b2 >> 6)) >> 2)
        == b1) by (bit_vector);
    assert((((((b1 & 15) << 2) | (b2 >> 6)) & 3) << 6) | (b2 & 63) == b2) by (bit_vector);
}

/// Encoding distributes over concatenation at a group boundary.
proof fn lemma_encode_append(x: Seq<u8>, y: Seq<u8>)
    requires
        x.len() % 3 == 0,
    ensures
        b64_encode_seq(x + y) == b64_encode_seq(x) + b64_encode_seq(y),
    decreases x.len(),
{
    if x.len() == 0 {
        assert(x + y =~= y);
        assert(b64_encode_seq(x) + b64_encode_seq(y) =~= b64_encode_seq(y));
    } else {
        let xy = x + y;
        assert(x.len() >= 3);
        assert(xy[0] == x[0] && xy[1] == x[1] && xy[2] == x[2]);
        assert(xy.skip(3) =~= x.skip(3) + y);
        lemma_encode_append(x.skip(3), y);
        assert(b64_encode_seq(xy) == seq![
            b64_char(xy[0] >> 2),
            b64_char(((xy[0] & 3) << 4) | (xy[1] >> 4)),
            b64_char(((xy[1] & 15) << 2) | (xy[2] >> 6)),
            b64_char(xy[2] & 63),
        ] + b64_encode_seq(xy.skip(3)));
        assert(b64_encode_seq(x) == seq![
            b64_char(x[0] >> 2),
            b64_char(((x[0] & 3) << 4) | (x[1] >> 4)),
            b64_char(((x[1] & 15) << 2) | (x[2] >> 6)),
            b64_char(x[2] & 63),
        ] + b64_encode_seq(x.skip(3)));
        assert(b64_encode_seq(x + y) =~= b64_encode_seq(x) + b64_encode_seq(y));
    }
}

/// The length of an encoding: empty input gives empty output, a short
/// input one padded group, a longer input at least two groups.
proof fn lemma_encode_len(b: Seq<u8>)
    ensures
        b.len() == 0 ==> b64_encode_seq(b).len() == 0,
        1 <= b.len() <= 3 ==> b64_encode_seq(b).len() == 4,
        b.len() > 3 ==> b64_encode_seq(b).len() >= 8,
    decreases b.len(),
{
    if b.len() == 3 {
        assert(b.skip(3) =~= Seq::<u8>::empty());
        assert(b64_encode_seq(b.skip(3)) =~= Seq::<u8>::empty());
    } else if b.len() > 3 {
        lemma_encode_len(b.skip(3));
    }
}

/// Decoding inverts encoding: every byte sequence comes back from its own
/// base64 text.
pub proof fn lemma_b64_round_trip(b: Seq<u8>)
    ensures
        b64_decode_seq(b64_encode_seq(b)) == Some(b),
    decreases b.len(),
{
    let e = b64_encode_seq(b);
    if b.len() == 0 {
        assert(Seq::<u8>::empty() =~= b);
    } else if b.len() == 1 {
        lemma_split1(b[0]);
        lemma_val_of_char(b[0] >> 2);
        lemma_val_of_char((b[0] & 3) << 4);
        assert(b64_decode_seq(e) == b64_decode_tail(e[0], e[1], e[2], e[3]));
        assert(seq![dec_b0(b[0] >> 2, (b[0] & 3) << 4)] =~= b);
    } else if b.len() == 2 {
        lemma_split2(b[0], b[1]);
        lemma_val_of_char(b[0] >> 2);
        lemma_val_of_char(((b[0] & 3) << 4) | (b[1] >> 4));
        lemma_val_of_char((b[1] & 15) << 2);
        assert(b64_decode_seq(e) == b64_decode_tail(e[0], e[1], e[2], e[3]));
        assert(seq![
            dec_b0(b[0] >> 2, ((b[0] & 3) << 4) | (b[1] >> 4)),
            dec_b1(((b[0] & 3) << 4) | (b[1] >> 4), (b[1] & 15) << 2),
        ] =~= b);
    } else if b.len() == 3 {
        lemma_split3(b[0], b[1], b[2]);
        lemma_val_of_char(b[0] >> 2);
        lemma_val_of_char(((b[0] & 3) << 4) | (b[1] >> 4));
        lemma_val_of_char(((b[1] & 15) << 2) | (b[2] >> 6));
        lemma_val_of_char(b[2] & 63);
        assert(b.skip(3) =~= Seq::<u8>::empty());
        assert(b64_encode_seq(b.skip(3)) =~= Seq::<u8>::empty());
        assert(e =~= seq![
            b64_char(b[0] >> 2),
            b64_char(((b[0] & 3) << 4) | (b[1] >> 4)),
            b64_char(((b[1] & 15) << 2) | (b[2] >> 6)),
            b64_char(b[2] & 63),
        ]);
        assert(b64_decode_seq(e) == b64_decode_tail(e[0], e[1], e[2], e[3]));
        assert(seq![
            dec_b0(b[0] >> 2, ((b[0] & 3) << 4) | (b[1] >> 4)),
            dec_b1(((b[0] & 3) << 4) | (b[1] >> 4), ((b[1] & 15) << 2) | (b[2] >> 6)),
            dec_b2(((b[1] & 15) << 2) | (b[2] >> 6), b[2] & 63),
        ] =~= b);
    } else {
        lemma_split3(b[0], b[1], b[2]);
        lemma_val_of_char(b[0] >> 2);
        lemma_val_of_char(((b[0] & 3) << 4) | (b[1] >> 4));
        lemma_val_of_char(((b[1] & 15) << 2) | (b[2] >> 6));
        lemma_val_of_char(b[2] & 63);
        lemma_encode_len(b.skip(3));
        assert(e.len() >= 8);
        assert(e.skip(4) =~= b64_encode_seq(b.skip(3)));
        lemma_b64_round_trip(b.skip(3));
        assert(seq![b[0], b[1], b[2]] + b.skip(3) =~= b);
    }
}

fn b64_char_x(x: u8) -> (r: u8)
    requires
        x < 64,
    ensures
        r == b64_char(x),
{
    if x < 26 {
        x + 65
    } else if x < 52 {
        x + 71
    } else if x < 62 {
        x - 4
    } else if x == 62 {
        43
    } else {
        47
    }
}

fn b64_val_x(c: u8) -> (r: Option<u8>)
    ensures
        r == b64_val(c),
        r matches Some(v) ==> v < 64,
{
    if 65 <= c && c <= 90 {
        Some(c - 65)
    } else if 97 <= c && c <= 122 {
        Some(c - 71)
    } else if 48 <= c && c <= 57 {
        Some(c + 4)
    } else if c == 43 {
        Some(62)
    } else if c == 47 {
        Some(63)
    } else {
        None
    }
}

/// Base64-encodes `input` under the standard alphabet, `=`-padded.
pub fn b64_encode(input: &Vec<u8>) -> (r: Vec<u8>)
    ensures
        r@ == b64_encode_seq(input@),
{
    let mut out: Vec<u8> = Vec::new();
    let mut i: usize = 0;
    while input.len() - i >= 3
        invariant
            i % 3 == 0,
            i <= input.len(),
            out@ == b64_encode_seq(input@.take(i as int)),
        decreases input.len() - i,
    {
        let b0 = input[i];
        let b1 = input[i + 1];
        let b2 = input[i + 2];
        proof {
            lemma_split3(b0, b1, b2);
        }
        out.push(b64_char_x(b0 >> 2));
        out.push(b64_char_x(((b0 & 3) << 4) | (b1 >> 4)));
        out.push(b64_char_x(((b1 & 15) << 2) | (b2 >> 6)));
        out.push(b64_char_x(b2 & 63));
        proof {
            let pre = input@.take(i as int);
            let chunk = seq![input@[i as int], input@[i as int + 1], input@[i as int + 2]];
            assert(input@.take(i as int + 3) =~= pre + chunk);
            lemma_encode_append(pre, chunk);
            assert(chunk.skip(3) =~= Seq::<u8>::empty());
            assert(b64_encode_seq(chunk.skip(3)) =~= Seq::<u8>::empty());
            assert(b64_encode_seq(chunk) =~= seq![
                b64_char(b0 >> 2),
                b64_char(((b0 & 3) << 4) | (b1 >> 4)),
                b64_char(((b1 & 15) << 2) | (b2 >> 6)),
                b64_char(b2 & 63),
            ]);
            assert(out@ =~= b64_encode_seq(input@.take(i as int + 3)));
        }
        i = i + 3;
    }
    if input.len() - i == 1 {
        let b0 = input[i];
        proof {
            lemma_split1(b0);
        }
        out.push(b64_char_x(b0 >> 2));
        out.push(b64_char_x((b0 & 3) << 4));
        out.push(61);
        out.push(61);
        proof {
            let tail = input@.skip(i as int);
            assert(tail.len() == 1 && tail[0] == b0);
            assert(b64_encode_seq(tail) =~= seq![
                b64_char(b0 >> 2),
                b64_char((b0 & 3) << 4),
                61u8,
                61u8,
            ]);
        }
    } else if input.len() - i == 2 {
        let b0 = input[i];
        let b1 = input[i + 1];
        proof {
            lemma_split2(b0, b1);
        }
        out.push(b64_char_x(b0 >> 2));
        out.push(b64_char_x(((b0 & 3) << 4) | (b1 >> 4)));
        out.push(b64_char_x((b1 & 15) << 2));
        out.push(61);
        proof {
            let tail = input@.skip(i as int);
            assert(tail.len() == 2 && tail[0] == b0 && tail[1] == b1);
            assert(b64_encode_seq(tail) =~= seq![
                b64_char(b0 >> 2),
                b64_char(((b0 & 3) << 4) | (b1 >> 4)),
                b64_char((b1 & 15) << 2),
                61u8,
            ]);
        }
    } else {
        proof {
            assert(input@.skip(i as int) =~= Seq::<u8>::empty());
        }
    }
    proof {
        lemma_encode_append(input@.take(i as int), input@.skip(i as int));
        assert(input@.take(i as int) + input@.skip(i as int) =~= input@);
        assert(out@ =~= b64_encode_seq(input@));
    }
    out
}

/// The decoded bytes gathered so far, prefixed to a decoding of the rest.
spec fn opt_prefixed(pre: Seq<u8>, r: Option<Seq<u8>>) -> Option<Seq<u8>> {
    match r {
        Some(x) => Some(pre + x),
        None => None,
    }
}

/// Decodes base64 text; `None` where the text is not well-formed.
pub fn b64_decode(input: &Vec<u8>) -> (r: Option<Vec<u8>>)
    ensures
        (r is Some) == (b64_decode_seq(input@) is Some),
        r matches Some(v) ==> b64_decode_seq(input@) == Some(v@),
{
    let n = input.len();
    if n == 0 {
        let out: Vec<u8> = Vec::new();
        proof {
            assert(out@ =~= Seq::<u8>::empty());
        }
        return Some(out);
    }
    let mut out: Vec<u8> = Vec::new();
    let mut i: usize = 0;
    proof {
        assert(input@.skip(0) =~= input@);
        let d0 = b64_decode_seq(input@);
        if d0 is Some {
            assert(Seq::<u8>::empty() + d0->0 =~= d0->0);
        }
    }
    while n - i > 4
        invariant
            n == input.len(),
            i % 4 == 0,
            i < n,
            b64_decode_seq(input@) == opt_prefixed(out@, b64_decode_seq(input@.skip(i as int))),
        decreases n - i,
    {
        let a = input[i];
        let b = input[i + 1];
        let c = input[i + 2];
        let d = input[i + 3];
        proof {
            let s = input@.skip(i as int);
            assert(s.len() > 4);
            assert(s[0] == a && s[1] == b && s[2] == c && s[3] == d);
            assert(s.skip(4) =~= input@.skip(i as int + 4));
        }
        let va = b64_val_x(a);
        let vb = b64_val_x(b);
        let vc = b64_val_x(c);
        let vd = b64_val_x(d);
        match (va, vb, vc, vd) {
            (Some(x), Some(y), Some(z), Some(w)) => {
                let ghost pre = out@;
                out.push((x << 2) | (y >> 4));
                out.push(((y & 15) << 4) | (z >> 2));
                out.push(((z & 3) << 6) | w);
                proof {
                    let s = input@.skip(i as int);
                    let chunk = seq![dec_b0(x, y), dec_b1(y, z), dec_b2(z, w)];
                    assert(out@ =~= pre + chunk);
                    let rest = b64_decode_seq(input@.skip(i as int + 4));
                    if rest is Some {
                        assert(pre + (chunk + rest->0) =~= (pre + chunk) + rest->0);
                    }
                    assert(b64_decode_seq(input@) == opt_prefixed(
                        out@,
                        b64_decode_seq(input@.skip(i as int + 4)),
                    ));
                }
                i = i + 4;
            },
            _ => {
                proof {
                    assert(b64_decode_seq(input@.skip(i as int)) is None);
                }
                return None;
            },
        }
    }
    if n - i < 4 {
        proof {
            let s = input@.skip(i as int);
            assert(0 < s.len() < 4);
            assert(b64_decode_seq(s) is None);
        }
        return None;
    }
    let a = input[i];
    let b = input[i + 1];
    let c = input[i + 2];
    let d = input[i + 3];
    proof {
        let s = input@.skip(i as int);
        assert(s.len() == 4);
        assert(s[0] == a && s[1] == b && s[2] == c && s[3] == d);
        assert(b64_decode_seq(s) == b64_decode_tail(a, b, c, d));
    }
    let ghost pre = out@;
    if c == 61 && d == 61 {
        match (b64_val_x(a), b64_val_x(b)) {
            (Some(x), Some(y)) => {
                if y & 15 == 0 {
                    out.push((x << 2) | (y >> 4));
                    proof {
                        assert(out@ =~= pre + seq![dec_b0(x, y)]);
                    }
                    Some(out)
                } else {
                    None
                }
            },
            _ => None,
        }
    } else if d == 61 {
        match (b64_val_x(a), b64_val_x(b), b64_val_x(c)) {
            (Some(x), Some(y), Some(z)) => {
                if z & 3 == 0 {
                    out.push((x << 2) | (y >> 4));
                    out.push(((y & 15) << 4) | (z >> 2));
                    proof {
                        assert(out@ =~= pre + seq![dec_b0(x, y), dec_b1(y, z)]);
                    }
                    Some(out)
                } else {
                    None
                }
            },
            _ => None,
        }
    } else {
        match (b64_val_x(a), b64_val_x(b), b64_val_x(c), b64_val_x(d)) {
            (Some(x), Some(y), Some(z), Some(w)) => {
                out.push((x << 2) | (y >> 4));
                out.push(((y & 15) << 4) | (z >> 2));
                out.push(((z & 3) << 6) | w);
                proof {
                    assert(out@ =~= pre + seq![dec_b0(x, y), dec_b1(y, z), dec_b2(z, w)]);
                }
                Some(out)
            },
            _ => None,
        }
    }
}

} // verus!

//! The key-value form used in session headers: `k=percent-encode(v)` on
//! the way out; on the way in, the value accepts both `%HH` sequences and
//! `+` for space.

use vstd::prelude::*;
use vstd::utf8::{decode_utf8, encode_utf8, encode_utf8_decode_utf8, encode_utf8_valid_utf8,
    valid_utf8};

use crate::codec::bytes_to_utf8;
use crate::types::string_push;

verus! {

/// Bytes that percent-encoding passes through unchanged: ASCII letters,
/// digits, `-`, `.`, `_` and `~`.
pub open spec fn spec_unreserved(b: u8) -> bool {
    ||| (65 <= b <= 90)
    ||| (97 <= b <= 122)
    ||| (48 <= b <= 57)
    ||| b == 45
    ||| b == 46
    ||| b == 95
    ||| b == 126
}

/// The upper-case hex digit of a nibble.
pub open spec fn spec_hex_digit(n: u8) -> char {
    if n == 0 {
        '0'
    } else if n == 1 {
        '1'
    } else if n == 2 {
        '2'
    } else if n == 3 {
        '3'
    } else if n == 4 {
        '4'
    } else if n == 5 {
        '5'
    } else if n == 6 {
        '6'
    } else if n == 7 {
        '7'
    } else if n == 8 {
        '8'
    } else if n == 9 {
        '9'
    } else if n == 10 {
        'A'
    } else if n == 11 {
        'B'
    } else if n == 12 {
        'C'
    } else if n == 13 {
        'D'
    } else if n == 14 {
        'E'
    } else {
        'F'
    }
}

/// The value of one hex digit, upper or lower case.
pub open spec fn spec_hex_val(c: char) -> Option<u8> {
    if '0' <= c <= '9' {
        Some((c as u8 - 48) as u8)
    } else if 'A' <= c <= 'F' {
        Some((c as u8 - 55) as u8)
    } else if 'a' <= c <= 'f' {
        Some((c as u8 - 87) as u8)
    } else {
        None
    }
}

/// The percent-encoding of one byte: itself when unreserved, `%HH`
/// otherwise.
pub open spec fn spec_enc_byte(b: u8) -> Seq<char> {
    if spec_unreserved(b) {
        seq![b as char]
    } else {
        seq!['%', spec_hex_digit(b / 16), spec_hex_digit(b % 16)]
    }
}

/// The percent-encoding of a byte string.
pub open spec fn spec_pct_encode(bs: Seq<u8>) -> Seq<char>
    decreases bs,
{
    if bs.len() == 0 {
        Seq::empty()
    } else {
        spec_enc_byte(bs[0]) + spec_pct_encode(bs.drop_first())
    }
}

/// The bytes a percent-encoded text decodes to: `%HH` gives the byte,
/// `+` gives a space, any other ASCII character passes through; text
/// holding a character outside ASCII, or a malformed `%` escape, decodes
/// to nothing.
pub open spec fn spec_pct_decode(s: Seq<char>) -> Option<Seq<u8>>
    decreases s.len(),
{
    if s.len() == 0 {
        Some(Seq::empty())
    } else if s[0] == '%' {
        if s.len() >= 3 {
            match (spec_hex_val(s[1]), spec_hex_val(s[2])) {
                (Some(h), Some(l)) => match spec_pct_decode(s.skip(3)) {
                    Some(rest) => Some(seq![(h * 16 + l) as u8] + rest),
                    None => None,
                },
                _ => None,
            }
        } else {
            None
        }
    } else if s[0] == '+' {
        match spec_pct_decode(s.drop_first()) {
            Some(rest) => Some(seq![32u8] + rest),
            None => None,
        }
    } else if (s[0] as u32) < 128 {
        match spec_pct_decode(s.drop_first()) {
            Some(rest) => Some(seq![s[0] as u8] + rest),
            None => None,
        }
    } else {
        None
    }
}

/// Whether the text holds an `=` sign.
pub open spec fn spec_has_eq(s: Seq<char>) -> bool {
    exists|i: int| 0 <= i < s.len() && s[i] == '='
}

/// Split at the text's only `=` sign; a text with no `=`, or more than
/// one, does not split.
pub open spec fn spec_split_eq(s: Seq<char>) -> Option<(Seq<char>, Seq<char>)>
    decreases s.len(),
{
    if s.len() == 0 {
        None
    } else if s[0] == '=' {
        if spec_has_eq(s.drop_first()) {
            None
        } else {
            Some((Seq::empty(), s.drop_first()))
        }
    } else {
        match spec_split_eq(s.drop_first()) {
            Some((a, b)) => Some((seq![s[0]] + a, b)),
            None => None,
        }
    }
}

/// The key-value encoding of a pair: the key verbatim, `=`, then the
/// percent-encoded UTF-8 bytes of the value.
pub open spec fn spec_encode_kv(k: Seq<char>, v: Seq<char>) -> Seq<char> {
    k + seq!['='] + spec_pct_encode(encode_utf8(v))
}

/// What decoding a `k=v` text yields: split at the only `=`, then
/// percent-decode the value and read it as UTF-8.
pub open spec fn spec_decode_kv(s: Seq<char>) -> Option<(Seq<char>, Seq<char>)> {
    match spec_split_eq(s) {
        Some((k, ev)) => match spec_pct_decode(ev) {
            Some(bs) => if valid_utf8(bs) {
                Some((k, decode_utf8(bs)))
            } else {
                None
            },
            None => None,
        },
        None => None,
    }
}

fn hex_digit(n: u8) -> (c: char)
    requires
        n < 16,
    ensures
        c == spec_hex_digit(n),
{
    if n == 0 {
        '0'
    } else if n == 1 {
        '1'
    } else if n == 2 {
        '2'
    } else if n == 3 {
        '3'
    } else if n == 4 {
        '4'
    } else if n == 5 {
        '5'
    } else if n == 6 {
        '6'
    } else if n == 7 {
        '7'
    } else if n == 8 {
        '8'
    } else if n == 9 {
        '9'
    } else if n == 10 {
        'A'
    } else if n == 11 {
        'B'
    } else if n == 12 {
        'C'
    } else if n == 13 {
        'D'
    } else if n == 14 {
        'E'
    } else {
        'F'
    }
}

fn hex_val(c: char) -> (r: Option<u8>)
    ensures
        r == spec_hex_val(c),
{
    if '0' <= c && c <= '9' {
        Some(c as u8 - 48)
    } else if 'A' <= c && c <= 'F' {
        Some(c as u8 - 55)
    } else if 'a' <= c && c <= 'f' {
        Some(c as u8 - 87)
    } else {
        None
    }
}

proof fn lemma_pct_encode_push(bs: Seq<u8>, b: u8)
    ensures
        spec_pct_encode(bs.push(b)) == spec_pct_encode(bs) + spec_enc_byte(b),
    decreases bs,
{
    if bs.len() == 0 {
        assert(bs.push(b).len() == 1);
        assert(bs.push(b)[0] == b);
        assert(bs.push(b).drop_first() =~= Seq::<u8>::empty());
        assert(spec_pct_encode(bs.push(b).drop_first()) =~= Seq::<char>::empty());
        assert(spec_pct_encode(bs.push(b)) =~= spec_enc_byte(b));
        assert(spec_pct_encode(bs) + spec_enc_byte(b) =~= spec_enc_byte(b));
    } else {
        lemma_pct_encode_push(bs.drop_first(), b);
        assert(bs.push(b).drop_first() =~= bs.drop_first().push(b));
        assert(bs.push(b)[0] == bs[0]);
        assert(spec_pct_encode(bs.push(b)) =~= spec_pct_encode(bs) + spec_enc_byte(b));
    }
}

/// Encode a session key-value pair for a request header.
pub fn encode_kv(k: &str, v: &str) -> (r: String)
    ensures
        r@ == spec_encode_kv(k@, v@),
{
    let mut out = k.to_owned();
    string_push(&mut out, '=');
    let vb = v.as_bytes_vec();
    let n = vb.len();
    let mut i: usize = 0;
    while i < n
        invariant
            i <= n,
            n == vb@.len(),
            vb@ == encode_utf8(v@),
            out@ == k@ + seq!['='] + spec_pct_encode(vb@.take(i as int)),
        decreases n - i,
    {
        let b = vb[i];
        if (65 <= b && b <= 90) || (97 <= b && b <= 122) || (48 <= b && b <= 57) || b == 45 || b
            == 46 || b == 95 || b == 126 {
            string_push(&mut out, b as char);
        } else {
            string_push(&mut out, '%');
            string_push(&mut out, hex_digit(b / 16));
            string_push(&mut out, hex_digit(b % 16));
        }
        proof {
            lemma_pct_encode_push(vb@.take(i as int), b);
            assert(vb@.take(i as int).push(b) =~= vb@.take(i + 1 as int));
        }
        i += 1;
    }
    proof {
        assert(vb@.take(n as int) =~= vb@);
    }
    out
}

fn pct_decode_from(s: &str, i: usize) -> (r: Option<Vec<u8>>)
    requires
        i <= s@.len(),
    ensures
        r is Some <==> spec_pct_decode(s@.skip(i as int)) is Some,
        r matches Some(v) ==> Some(v@) == spec_pct_decode(s@.skip(i as int)),
    decreases s@.len() - i,
{
    let n = s.unicode_len();
    if i == n {
        proof {
            assert(s@.skip(i as int) =~= Seq::<char>::empty());
        }
        return Some(Vec::new());
    }
    let c = s.get_char(i);
    proof {
        assert(s@.skip(i as int)[0] == s@[i as int]);
    }
    if c == '%' {
        if n - i >= 3 {
            let h = hex_val(s.get_char(i + 1));
            let l = hex_val(s.get_char(i + 2));
            proof {
                assert(s@.skip(i as int)[1] == s@[i + 1 as int]);
                assert(s@.skip(i as int)[2] == s@[i + 2 as int]);
            }
            match (h, l) {
                (Some(h), Some(l)) => {
                    match pct_decode_from(s, i + 3) {
                        Some(mut rest) => {
                            rest.insert(0, h * 16 + l);
                            proof {
                                assert(s@.skip(i as int).skip(3) =~= s@.skip(i + 3 as int));
                            }
                            Some(rest)
                        },
                        None => {
                            proof {
                                assert(s@.skip(i as int).skip(3) =~= s@.skip(i + 3 as int));
                            }
                            None
                        },
                    }
                },
                _ => None,
            }
        } else {
            proof {
                assert(s@.skip(i as int).len() < 3);
            }
            None
        }
    } else if c == '+' {
        match pct_decode_from(s, i + 1) {
            Some(mut rest) => {
                rest.insert(0, 32);
                proof {
                    assert(s@.skip(i as int).drop_first() =~= s@.skip(i + 1 as int));
                }
                Some(rest)
            },
            None => {
                proof {
                    assert(s@.skip(i as int).drop_first() =~= s@.skip(i + 1 as int));
                }
                None
            },
        }
    } else if (c as u32) < 128 {
        match pct_decode_from(s, i + 1) {
            Some(mut rest) => {
                rest.insert(0, c as u8);
                proof {
                    assert(s@.skip(i as int).drop_first() =~= s@.skip(i + 1 as int));
                }
                Some(rest)
            },
            None => {
                proof {
                    assert(s@.skip(i as int).drop_first() =~= s@.skip(i + 1 as int));
                }
                None
            },
        }
    } else {
        None
    }
}

proof fn lemma_split_eq_at(s: Seq<char>, i: int)
    requires
        0 <= i < s.len(),
        s[i] == '=',
        forall|j: int| 0 <= j < s.len() && j != i ==> s[j] != '=',
    ensures
        spec_split_eq(s) == Some((s.take(i), s.skip(i + 1))),
    decreases s.len(),
{
    if i == 0 {
        assert(!spec_has_eq(s.drop_first())) by {
            if spec_has_eq(s.drop_first()) {
                let j = choose|j: int|
                    0 <= j < s.drop_first().len() && s.drop_first()[j] == '=';
                assert(s[j + 1] == '=');
            }
        }
        assert(s.take(0) =~= Seq::<char>::empty());
        assert(s.skip(1) =~= s.drop_first());
    } else {
        assert(s[0] != '=');
        assert forall|j: int|
            0 <= j < s.drop_first().len() && j != i - 1 implies s.drop_first()[j] != '=' by {
            assert(s.drop_first()[j] == s[j + 1]);
        }
        assert(s.drop_first()[i - 1] == s[i]);
        lemma_split_eq_at(s.drop_first(), i - 1);
        assert(seq![s[0]] + s.drop_first().take(i - 1) =~= s.take(i));
        assert(s.drop_first().skip(i) =~= s.skip(i + 1));
    }
}

proof fn lemma_split_eq_none(s: Seq<char>)
    requires
        !(exists|i: int|
            {
                &&& 0 <= i < s.len()
                &&& s[i] == '='
                &&& forall|j: int| 0 <= j < s.len() && j != i ==> s[j] != '='
            }),
    ensures
        spec_split_eq(s) is None,
    decreases s.len(),
{
    if s.len() == 0 {
    } else if s[0] == '=' {
        assert(spec_has_eq(s.drop_first())) by {
            if !spec_has_eq(s.drop_first()) {
                assert forall|j: int| 0 <= j < s.len() && j != 0 implies s[j] != '=' by {
                    assert(s.drop_first()[j - 1] == s[j]);
                }
            }
        }
    } else {
        assert(!(exists|i: int|
            {
                &&& 0 <= i < s.drop_first().len()
                &&& s.drop_first()[i] == '='
                &&& forall|j: int|
                    0 <= j < s.drop_first().len() && j != i ==> s.drop_first()[j] != '='
            })) by {
            if exists|i: int|
                {
                    &&& 0 <= i < s.drop_first().len()
                    &&& s.drop_first()[i] == '='
                    &&& forall|j: int|
                        0 <= j < s.drop_first().len() && j != i ==> s.drop_first()[j] != '='
                } {
                let i = choose|i: int|
                    {
                        &&& 0 <= i < s.drop_first().len()
                        &&& s.drop_first()[i] == '='
                        &&& forall|j: int|
                            0 <= j < s.drop_first().len() && j != i ==> s.drop_first()[j] != '='
                    };
                assert(s[i + 1] == s.drop_first()[i]);
                assert forall|j: int| 0 <= j < s.len() && j != i + 1 implies s[j] != '=' by {
                    if j > 0 {
                        assert(s.drop_first()[j - 1] == s[j]);
                    }
                }
            }
        }
        lemma_split_eq_none(s.drop_first());
    }
}

/// Decode a `k=v` header value back into its pair: the text must hold
/// exactly one `=`, and the value part must percent-decode to UTF-8.
pub fn decode_kv(s: &str) -> (r: Option<(String, String)>)
    ensures
        r is Some <==> spec_decode_kv(s@) is Some,
        r matches Some(p) ==> Some((p.0@, p.1@)) == spec_decode_kv(s@),
{
    let n = s.unicode_len();
    let mut pos: usize = n;
    let mut count: usize = 0;
    let mut i: usize = 0;
    while i < n
        invariant
            i <= n,
            n == s@.len(),
            count <= i,
            count == 0 ==> pos == n && (forall|j: int| 0 <= j < i ==> s@[j] != '='),
            count == 1 ==> (pos as int) < i && s@[pos as int] == '=' && (forall|j: int|
                0 <= j < i && j != pos as int ==> s@[j] != '='),
            count >= 2 ==> exists|a: int, b: int|
                0 <= a < b < i && s@[a] == '=' && s@[b] == '=',
        decreases n - i,
    {
        if s.get_char(i) == '=' {
            if count == 0 {
                pos = i;
            }
            count += 1;
        }
        i += 1;
    }
    if count != 1 {
        proof {
            if count == 0 {
                lemma_split_eq_none(s@);
            } else {
                let (a, b) = choose|a: int, b: int|
                    0 <= a < b < n && s@[a] == '=' && s@[b] == '=';
                assert forall|i2: int|
                    !{
                        &&& 0 <= i2 < s@.len()
                        &&& s@[i2] == '='
                        &&& forall|j: int| 0 <= j < s@.len() && j != i2 ==> s@[j] != '='
                    } by {
                    if 0 <= i2 < s@.len() && s@[i2] == '=' {
                        if i2 != a {
                            assert(s@[a] == '=');
                        } else {
                            assert(s@[b] == '=');
                        }
                    }
                }
                lemma_split_eq_none(s@);
            }
        }
        return None;
    }
    proof {
        lemma_split_eq_at(s@, pos as int);
    }
    let key = s.substring_char(0, pos).to_owned();
    match pct_decode_from(s, pos + 1) {
        Some(bs) => {
            match bytes_to_utf8(&bs) {
                Some(v) => Some((key, v)),
                None => None,
            }
        },
        None => None,
    }
}

proof fn lemma_pct_encode_no_special(bs: Seq<u8>)
    ensures
        forall|i: int|
            0 <= i < spec_pct_encode(bs).len() ==> #[trigger] spec_pct_encode(bs)[i] != '=',
    decreases bs,
{
    if bs.len() == 0 {
    } else {
        lemma_pct_encode_no_special(bs.drop_first());
        let head = spec_enc_byte(bs[0]);
        let tail = spec_pct_encode(bs.drop_first());
        assert forall|i: int|
            0 <= i < spec_pct_encode(bs).len() implies #[trigger] spec_pct_encode(bs)[i]
            != '=' by {
            if i < head.len() {
                assert(spec_pct_encode(bs)[i] == head[i]);
                if spec_unreserved(bs[0]) {
                    assert(head[i] == bs[0] as char);
                    assert(bs[0] != 61);
                } else {
                    assert(bs[0] / 16 < 16 && bs[0] % 16 < 16);
                }
            } else {
                assert(spec_pct_encode(bs)[i] == tail[i - head.len()]);
            }
        }
    }
}

proof fn lemma_pct_round_trip(bs: Seq<u8>)
    ensures
        spec_pct_decode(spec_pct_encode(bs)) == Some(bs),
    decreases bs,
{
    if bs.len() == 0 {
        assert(spec_pct_encode(bs) =~= Seq::<char>::empty());
    } else {
        lemma_pct_round_trip(bs.drop_first());
        let b = bs[0];
        let head = spec_enc_byte(b);
        let tail = spec_pct_encode(bs.drop_first());
        let s = spec_pct_encode(bs);
        assert(s == head + tail);
        if spec_unreserved(b) {
            assert(s[0] == b as char);
            assert(b != 37 && b != 43);
            assert(s[0] != '%' && s[0] != '+');
            assert((s[0] as u32) < 128);
            assert(s[0] as u8 == b);
            assert(s.drop_first() =~= tail);
            assert(spec_pct_decode(s) == Some(seq![b] + bs.drop_first()));
            assert(seq![b] + bs.drop_first() =~= bs);
        } else {
            assert(s[0] == '%');
            assert(s.len() >= 3);
            assert(s[1] == spec_hex_digit(b / 16));
            assert(s[2] == spec_hex_digit(b % 16));
            assert(spec_hex_val(spec_hex_digit(b / 16)) == Some((b / 16) as u8));
            assert(spec_hex_val(spec_hex_digit(b % 16)) == Some((b % 16) as u8));
            assert(s.skip(3) =~= tail);
            assert((b / 16) * 16 + b % 16 == b);
            assert(spec_pct_decode(s) == Some(seq![b] + bs.drop_first()));
            assert(seq![b] + bs.drop_first() =~= bs);
        }
    }
}

/// The header round trip: decoding an encoded pair gives the pair back,
/// for every key without an `=` sign and every value.
pub proof fn lemma_kv_round_trip(k: Seq<char>, v: Seq<char>)
    requires
        !spec_has_eq(k),
    ensures
        spec_decode_kv(spec_encode_kv(k, v)) == Some((k, v)),
{
    let vb = encode_utf8(v);
    let full = spec_encode_kv(k, v);
    let pct = spec_pct_encode(vb);
    lemma_pct_encode_no_special(vb);
    assert(full[k.len() as int] == '=');
    assert forall|j: int| 0 <= j < full.len() && j != k.len() implies full[j] != '=' by {
        if j < k.len() {
            assert(full[j] == k[j]);
        } else {
            assert(full[j] == pct[j - k.len() - 1]);
        }
    }
    lemma_split_eq_at(full, k.len() as int);
    assert(full.take(k.len() as int) =~= k);
    assert(full.skip(k.len() as int + 1) =~= pct);
    lemma_pct_round_trip(vb);
    encode_utf8_valid_utf8(v);
    encode_utf8_decode_utf8(v);
}

/// Both spellings of a space decode to a space: `+` and `%20` stand for
/// the same byte.
pub proof fn lemma_space_forms()
    ensures
        spec_pct_decode(seq!['+']) == Some(seq![32u8]),
        spec_pct_decode(seq!['%', '2', '0']) == Some(seq![32u8]),
{
    assert(spec_pct_decode(Seq::<char>::empty()) == Some(Seq::<u8>::empty()));
    let plus = seq!['+'];
    assert(plus.len() == 1);
    assert(plus[0] == '+');
    assert(plus.drop_first() =~= Seq::<char>::empty());
    assert(spec_pct_decode(plus) == Some(seq![32u8] + Seq::<u8>::empty()));
    assert(seq![32u8] + Seq::<u8>::empty() =~= seq![32u8]);
    let pct = seq!['%', '2', '0'];
    assert(pct[0] == '%' && pct[1] == '2' && pct[2] == '0');
    assert(spec_hex_val('2') == Some(2u8));
    assert(spec_hex_val('0') == Some(0u8));
    assert(pct.skip(3) =~= Seq::<char>::empty());
    assert(spec_pct_decode(pct) == Some(seq![32u8] + Seq::<u8>::empty()));
    assert(seq![32u8] + Seq::<u8>::empty() =~= seq![32u8]);
}

/// Whether `e` is a valid form-urlencoded writing of the bytes `bs`:
/// each byte in turn is written as a `%HH` escape (either case), a
/// space as `+`, or — for any ASCII byte other than `%` and `+` — as the
/// character itself.
pub open spec fn spec_encodes(e: Seq<char>, bs: Seq<u8>) -> bool
    decreases e.len(),
{
    if bs.len() == 0 {
        e.len() == 0
    } else if e.len() == 0 {
        false
    } else if e[0] == '%' {
        &&& e.len() >= 3
        &&& spec_hex_val(e[1]) == Some((bs[0] / 16) as u8)
        &&& spec_hex_val(e[2]) == Some((bs[0] % 16) as u8)
        &&& spec_encodes(e.skip(3), bs.drop_first())
    } else if e[0] == '+' {
        bs[0] == 32 && spec_encodes(e.drop_first(), bs.drop_first())
    } else {
        &&& bs[0] < 128
        &&& bs[0] != 37
        &&& bs[0] != 43
        &&& e[0] == bs[0] as char
        &&& spec_encodes(e.drop_first(), bs.drop_first())
    }
}

/// The decoder inverts every valid writing: whichever spelling each byte
/// was given, percent-decoding gives the bytes back.
pub proof fn lemma_pct_decode_encodes(e: Seq<char>, bs: Seq<u8>)
    requires
        spec_encodes(e, bs),
    ensures
        spec_pct_decode(e) == Some(bs),
    decreases e.len(),
{
    if bs.len() == 0 {
        assert(e.len() == 0);
    } else if e[0] == '%' {
        lemma_pct_decode_encodes(e.skip(3), bs.drop_first());
        let h = (bs[0] / 16) as u8;
        let l = (bs[0] % 16) as u8;
        assert((h * 16 + l) as u8 == bs[0]);
        assert(spec_pct_decode(e) == Some(seq![bs[0]] + bs.drop_first()));
        assert(seq![bs[0]] + bs.drop_first() =~= bs);
    } else if e[0] == '+' {
        lemma_pct_decode_encodes(e.drop_first(), bs.drop_first());
        assert(spec_pct_decode(e) == Some(seq![32u8] + bs.drop_first()));
        assert(seq![32u8] + bs.drop_first() =~= bs);
    } else {
        lemma_pct_decode_encodes(e.drop_first(), bs.drop_first());
        assert(e[0] != '%' && e[0] != '+');
        assert((e[0] as u32) < 128);
        assert(e[0] as u8 == bs[0]);
        assert(spec_pct_decode(e) == Some(seq![bs[0]] + bs.drop_first()));
        assert(seq![bs[0]] + bs.drop_first() =~= bs);
    }
}

/// The header round trip over every valid value writing: for a key
/// without `=` and a value written in any mix of the accepted spellings
/// (spaces as `+` or as `%20` in particular), decoding gives the pair
/// back.
pub proof fn lemma_kv_decode_any_form(k: Seq<char>, v: Seq<char>, ev: Seq<char>)
    requires
        !spec_has_eq(k),
        !spec_has_eq(ev),
        spec_encodes(ev, encode_utf8(v)),
    ensures
        spec_decode_kv(k + seq!['='] + ev) == Some((k, v)),
{
    let full = k + seq!['='] + ev;
    assert(full[k.len() as int] == '=');
    assert forall|j: int| 0 <= j < full.len() && j != k.len() implies full[j] != '=' by {
        if j < k.len() {
            assert(full[j] == k[j]);
        } else {
            assert(full[j] == ev[j - k.len() - 1]);
        }
    }
    lemma_split_eq_at(full, k.len() as int);
    assert(full.take(k.len() as int) =~= k);
    assert(full.skip(k.len() as int + 1) =~= ev);
    lemma_pct_decode_encodes(ev, encode_utf8(v));
    encode_utf8_valid_utf8(v);
    encode_utf8_decode_utf8(v);
}

/// The encoder's own output is one of the valid writings.
pub proof fn lemma_pct_encode_encodes(bs: Seq<u8>)
    ensures
        spec_encodes(spec_pct_encode(bs), bs),
    decreases bs,
{
    if bs.len() == 0 {
    } else {
        lemma_pct_encode_encodes(bs.drop_first());
        let e = spec_pct_encode(bs);
        let head = spec_enc_byte(bs[0]);
        let tail = spec_pct_encode(bs.drop_first());
        if spec_unreserved(bs[0]) {
            assert(e[0] == bs[0] as char);
            assert(bs[0] != 37 && bs[0] != 43);
            assert(e[0] != '%' && e[0] != '+');
            assert(e.drop_first() =~= tail);
        } else {
            assert(e[0] == '%');
            assert(e.len() >= 3);
            assert(e[1] == spec_hex_digit(bs[0] / 16));
            assert(e[2] == spec_hex_digit(bs[0] % 16));
            assert(spec_hex_val(e[1]) == Some((bs[0] / 16) as u8));
            assert(spec_hex_val(e[2]) == Some((bs[0] % 16) as u8));
            assert(e.skip(3) =~= tail);
        }
    }
}

} // verus!

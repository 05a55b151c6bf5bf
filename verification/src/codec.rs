//! The cache-payload codec: an extraction result — an ordered list of
//! paths — is serialized into one string for the key-value cache and read
//! back without loss.  Each item is written as its character count in
//! decimal, `':'`, the item, `';'`; decoding is the exact inverse.

use vstd::prelude::*;

verus! {

/// A decimal digit character.
pub open spec fn is_digit(c: char) -> bool {
    48 <= c as u32 <= 57
}

/// The numeric value of a decimal digit character.
pub open spec fn digit_val(c: char) -> nat {
    (c as u32 - 48) as nat
}

/// The decimal digit character for a value below ten.
pub open spec fn digit_char(d: nat) -> char {
    if d == 0 {
        '0'
    } else if d == 1 {
        '1'
    } else if d == 2 {
        '2'
    } else if d == 3 {
        '3'
    } else if d == 4 {
        '4'
    } else if d == 5 {
        '5'
    } else if d == 6 {
        '6'
    } else if d == 7 {
        '7'
    } else if d == 8 {
        '8'
    } else {
        '9'
    }
}

/// The decimal digits of `n`, most significant first.
pub open spec fn spec_dec(n: nat) -> Seq<char>
    decreases n,
{
    if n < 10 {
        seq![digit_char(n)]
    } else {
        spec_dec(n / 10) + seq![digit_char(n % 10)]
    }
}

/// The number a run of decimal digit characters denotes.
pub open spec fn parse_nat(digits: Seq<char>) -> nat
    decreases digits.len(),
{
    if digits.len() == 0 {
        0
    } else {
        parse_nat(digits.drop_last()) * 10 + digit_val(digits.last())
    }
}

/// The length of the leading run of decimal digit characters.
pub open spec fn digit_count(s: Seq<char>) -> nat
    decreases s.len(),
{
    if s.len() == 0 || !is_digit(s[0]) {
        0
    } else {
        (1 + digit_count(s.drop_first())) as nat
    }
}

/// One encoded item: the item's character count in decimal, `':'`, the
/// item, `';'`.
pub open spec fn spec_encode_one(s: Seq<char>) -> Seq<char> {
    spec_dec(s.len()) + seq![':'] + s + seq![';']
}

/// A whole encoded path list: the items' encodings in order.
pub open spec fn spec_encode(v: Seq<Seq<char>>) -> Seq<char>
    decreases v.len(),
{
    if v.len() == 0 {
        Seq::empty()
    } else {
        spec_encode_one(v[0]) + spec_encode(v.drop_first())
    }
}

/// What decoding a payload yields: the unique path list it encodes, or
/// nothing when it is not an encoding.  An empty payload decodes to the
/// empty list; otherwise a leading digit run gives an item's length, and
/// `':'`, the item and `';'` must follow, with the rest decoded in turn.
pub open spec fn spec_decode(p: Seq<char>) -> Option<Seq<Seq<char>>>
    decreases p.len(),
{
    if p.len() == 0 {
        Option::Some(Seq::empty())
    } else {
        let k = digit_count(p) as int;
        let n = parse_nat(p.subrange(0, k)) as int;
        if k == 0 || k >= p.len() || p[k] != ':' {
            Option::None
        } else if p.len() < k + 1 + n + 1 {
            Option::None
        } else if p[k + 1 + n] != ';' {
            Option::None
        } else {
            match spec_decode(p.skip(k + 1 + n + 1)) {
                Option::None => Option::None,
                Option::Some(rest) => Option::Some(seq![p.subrange(k + 1, k + 1 + n)] + rest),
            }
        }
    }
}

proof fn lemma_dec_digits(n: nat)
    ensures
        spec_dec(n).len() >= 1,
        forall|i: int| 0 <= i < spec_dec(n).len() ==> is_digit(#[trigger] spec_dec(n)[i]),
    decreases n,
{
    if n >= 10 {
        lemma_dec_digits(n / 10);
    }
}

proof fn lemma_digit_roundtrip(d: nat)
    requires
        d < 10,
    ensures
        digit_val(digit_char(d)) == d,
{
    assert('0' as u32 == 48 && '1' as u32 == 49 && '2' as u32 == 50 && '3' as u32 == 51
        && '4' as u32 == 52 && '5' as u32 == 53 && '6' as u32 == 54 && '7' as u32 == 55
        && '8' as u32 == 56 && '9' as u32 == 57);
}

proof fn lemma_parse_dec(n: nat)
    ensures
        parse_nat(spec_dec(n)) == n,
    decreases n,
{
    if n < 10 {
        lemma_digit_roundtrip(n);
        assert(spec_dec(n).drop_last() =~= Seq::<char>::empty());
        assert(parse_nat(spec_dec(n).drop_last()) == 0);
        assert(spec_dec(n).last() == digit_char(n));
    } else {
        lemma_digit_roundtrip(n % 10);
        lemma_parse_dec(n / 10);
        assert(spec_dec(n).drop_last() =~= spec_dec(n / 10));
        assert(spec_dec(n).last() == digit_char(n % 10));
        vstd::arithmetic::div_mod::lemma_fundamental_div_mod(n as int, 10);
    }
}

/// The leading digit run of digits followed by a non-digit is the digits.
proof fn lemma_digit_count_concat(a: Seq<char>, b: Seq<char>)
    requires
        forall|i: int| 0 <= i < a.len() ==> is_digit(#[trigger] a[i]),
        b.len() > 0,
        !is_digit(b[0]),
    ensures
        digit_count(a + b) == a.len(),
    decreases a.len(),
{
    if a.len() == 0 {
        assert(a + b =~= b);
    } else {
        assert((a + b)[0] == a[0]);
        lemma_digit_count_concat(a.drop_first(), b);
        assert((a + b).drop_first() =~= a.drop_first() + b);
    }
}

/// Appending digits never shrinks the denoted number.
proof fn lemma_parse_nat_extend(a: Seq<char>, b: Seq<char>)
    ensures
        parse_nat(a + b) >= parse_nat(a),
    decreases b.len(),
{
    if b.len() == 0 {
        assert(a + b =~= a);
    } else {
        lemma_parse_nat_extend(a, b.drop_last());
        assert((a + b).drop_last() =~= a + b.drop_last());
        assert(parse_nat(a + b) == parse_nat(a + b.drop_last()) * 10 + digit_val((a + b).last()));
    }
}

/// Round trip: decoding an encoded path list restores the list exactly.
pub proof fn lemma_decode_encode(v: Seq<Seq<char>>)
    ensures
        spec_decode(spec_encode(v)) == Option::Some(v),
    decreases v.len(),
{
    if v.len() == 0 {
        assert(spec_encode(v) =~= Seq::<char>::empty());
    } else {
        let s = v[0];
        let n = s.len() as int;
        let d = spec_dec(s.len());
        let k = d.len() as int;
        let p = spec_encode(v);
        let tail = spec_encode(v.drop_first());
        lemma_dec_digits(s.len());
        lemma_parse_dec(s.len());
        assert(p =~= d + (seq![':'] + s + seq![';'] + tail));
        lemma_digit_count_concat(d, seq![':'] + s + seq![';'] + tail);
        assert(digit_count(p) == k);
        assert(p.subrange(0, k) =~= d);
        assert(p.len() == k + 1 + n + 1 + tail.len());
        assert(p[k] == ':');
        assert(p[k + 1 + n] == ';');
        assert(p.subrange(k + 1, k + 1 + n) =~= s);
        assert(p.skip(k + 1 + n + 1) =~= tail);
        lemma_decode_encode(v.drop_first());
        assert(seq![s] + v.drop_first() =~= v);
    }
}

/// Returns the decimal digit below ten as a one-character string.
fn digit_str(d: usize) -> (r: &'static str)
    requires
        d < 10,
    ensures
        r@ =~= seq![digit_char(d as nat)],
{
    proof {
        reveal_strlit("0");
        reveal_strlit("1");
        reveal_strlit("2");
        reveal_strlit("3");
        reveal_strlit("4");
        reveal_strlit("5");
        reveal_strlit("6");
        reveal_strlit("7");
        reveal_strlit("8");
        reveal_strlit("9");
    }
    if d == 0 {
        "0"
    } else if d == 1 {
        "1"
    } else if d == 2 {
        "2"
    } else if d == 3 {
        "3"
    } else if d == 4 {
        "4"
    } else if d == 5 {
        "5"
    } else if d == 6 {
        "6"
    } else if d == 7 {
        "7"
    } else if d == 8 {
        "8"
    } else {
        "9"
    }
}

/// Writes `n` in decimal, as `spec_dec` describes.
pub fn dec_string(n: usize) -> (r: String)
    ensures
        r@ == spec_dec(n as nat),
    decreases n,
{
    if n < 10 {
        digit_str(n).to_owned()
    } else {
        let mut r = dec_string(n / 10);
        r.append(digit_str(n % 10));
        r
    }
}

/// Serializes a path list, as `spec_encode` describes.
#[verifier::loop_isolation(false)]
pub fn encode_paths(paths: &Vec<String>) -> (r: String)
    ensures
        r@ == spec_encode(paths@.map_values(|s: String| s@)),
{
    let ghost views = paths@.map_values(|s: String| s@);
    let mut r = String::new();
    let mut i: usize = 0;
    proof {
        assert(views.skip(0) =~= views);
    }
    while i < paths.len()
        invariant
            i <= paths@.len(),
            views == paths@.map_values(|s: String| s@),
            r@ + spec_encode(views.skip(i as int)) == spec_encode(views),
        decreases paths@.len() - i,
    {
        proof {
            assert(views.skip(i as int)[0] == views[i as int]);
            assert(views.skip(i as int).drop_first() =~= views.skip(i as int + 1));
        }
        let item = &paths[i];
        let len = item.as_str().unicode_len();
        let d = dec_string(len);
        r.append(d.as_str());
        r.append(":");
        r.append(item.as_str());
        r.append(";");
        proof {
            reveal_strlit(":");
            reveal_strlit(";");
            assert(":"@ =~= seq![':']);
            assert(";"@ =~= seq![';']);
            assert(r@ + spec_encode(views.skip(i as int + 1)) =~= spec_encode(views));
        }
        i = i + 1;
    }
    proof {
        assert(views.skip(i as int) =~= Seq::<Seq<char>>::empty());
        assert(r@ + Seq::<char>::empty() =~= r@);
    }
    r
}

/// Deserializes a payload, as `spec_decode` describes: the unique path
/// list the payload encodes, or nothing when it encodes none.
#[verifier::loop_isolation(false)]
#[verifier::rlimit(100)]
pub fn decode_paths(p: &str) -> (r: Option<Vec<String>>)
    ensures
        match spec_decode(p@) {
            Option::None => r is None,
            Option::Some(v) => r matches Option::Some(out) && out@.map_values(|s: String| s@) == v,
        },
{
    let len = p.unicode_len();
    let mut out: Vec<String> = Vec::new();
    let mut pos: usize = 0;
    proof {
        assert(p@.skip(0) =~= p@);
        assert(out@.map_values(|s: String| s@) =~= Seq::<Seq<char>>::empty());
    }
    while pos < len
        invariant
            pos <= len,
            len == p@.len(),
            match spec_decode(p@.skip(pos as int)) {
                Option::None => spec_decode(p@) is None,
                Option::Some(rest) => spec_decode(p@) == Option::Some(
                    out@.map_values(|s: String| s@) + rest,
                ),
            },
        decreases len - pos,
    {
        let ghost tail = p@.skip(pos as int);
        // scan the digit run
        let mut j: usize = pos;
        let mut acc: usize = 0;
        let mut overflow = false;
        proof {
            assert(p@.subrange(pos as int, pos as int) =~= Seq::<char>::empty());
        }
        #[verifier::loop_isolation(true)]
        while j < len
            invariant_except_break
                pos <= j <= len,
                len == p@.len(),
                !overflow,
                forall|t: int| pos <= t < j ==> is_digit(#[trigger] p@[t]),
                acc == parse_nat(p@.subrange(pos as int, j as int)),
            ensures
                pos <= j <= len,
                forall|t: int| pos <= t < j ==> is_digit(#[trigger] p@[t]),
                !overflow ==> (j == len || !is_digit(p@[j as int])) && acc == parse_nat(
                    p@.subrange(pos as int, j as int),
                ),
                overflow ==> j < len && is_digit(p@[j as int]) && parse_nat(
                    p@.subrange(pos as int, j as int),
                ) * 10 + digit_val(p@[j as int]) > usize::MAX,
            decreases len - j,
        {
            let c = p.get_char(j);
            let u = c as u32;
            if !(48 <= u && u <= 57) {
                break ;
            }
            let d: usize = (u - 48) as usize;
            if acc > (usize::MAX - d) / 10 {
                proof {
                    assert(acc * 10 + d > usize::MAX) by (nonlinear_arith)
                        requires
                            acc > (usize::MAX - d) / 10,
                            d <= 9,
                    ;
                }
                overflow = true;
                break ;
            }
            acc = acc * 10 + d;
            proof {
                assert(p@.subrange(pos as int, j as int + 1).drop_last() =~= p@.subrange(
                    pos as int,
                    j as int,
                ));
            }
            j = j + 1;
        }
        proof {
            assert(tail.len() > 0);
        }
        if overflow {
            // the denoted length exceeds any possible payload length, so
            // the payload encodes nothing
            proof {
                let k = digit_count(tail) as int;
                lemma_digit_count_least(tail, (j - pos) as int);
                lemma_digit_count_bound(tail);
                assert(k > j - pos);
                let full = tail.subrange(0, k);
                let part = p@.subrange(pos as int, j as int + 1);
                assert(part =~= full.subrange(0, j - pos + 1));
                assert(full =~= part + full.subrange(j - pos + 1, k));
                lemma_parse_nat_extend(part, full.subrange(j - pos + 1, k));
                assert(part.drop_last() =~= p@.subrange(pos as int, j as int));
                assert(part.last() == p@[j as int]);
                assert(parse_nat(part) > usize::MAX);
                assert(parse_nat(full) >= parse_nat(part));
                assert(tail.len() < k + 1 + parse_nat(full) + 1);
            }
            return Option::None;
        }
        let k = j - pos;
        proof {
            lemma_digit_count_exact(tail, k as int);
            assert(tail.subrange(0, k as int) =~= p@.subrange(pos as int, j as int));
        }
        if k == 0 {
            return Option::None;
        }
        if j >= len || p.get_char(j) != ':' {
            proof {
                if (j as int) < len {
                    assert(tail[k as int] == p@[j as int]);
                }
            }
            return Option::None;
        }
        proof {
            assert(tail[k as int] == p@[j as int]);
        }
        // acc is the item's length; the item and the terminator must fit
        let n = acc;
        if len - (j + 1) < n || len - (j + 1) - n < 1 {
            proof {
                assert(tail.len() < k + 1 + n + 1);
            }
            return Option::None;
        }
        let item_start = j + 1;
        let item_end = item_start + n;
        let item = p.substring_char(item_start, item_end);
        proof {
            assert(item@ =~= tail.subrange(k as int + 1, k as int + 1 + n as int));
        }
        if p.get_char(item_end) != ';' {
            proof {
                assert(tail[k as int + 1 + n as int] == p@[item_end as int]);
            }
            return Option::None;
        }
        proof {
            assert(tail[k as int + 1 + n as int] == p@[item_end as int]);
            assert(tail.skip(k as int + 1 + n as int + 1) =~= p@.skip(item_end as int + 1));
            assert(out@.map_values(|s: String| s@).push(item@) =~= out@.map_values(|s: String| s@)
                + seq![item@]);
        }
        out.push(item.to_owned());
        proof {
            assert(out@.map_values(|s: String| s@) =~= out@.map_values(
                |s: String| s@,
            ).drop_last().push(item@));
            let rest_p = p@.skip(item_end as int + 1);
            if spec_decode(rest_p) is Some {
                assert(seq![item@] + spec_decode(rest_p).unwrap() =~= spec_decode(tail).unwrap());
                assert(out@.map_values(|s: String| s@).drop_last() + spec_decode(tail).unwrap()
                    =~= out@.map_values(|s: String| s@) + spec_decode(rest_p).unwrap());
            }
        }
        pos = item_end + 1;
    }
    proof {
        assert(p@.skip(pos as int) =~= Seq::<char>::empty());
        assert(out@.map_values(|s: String| s@) + Seq::<Seq<char>>::empty() =~= out@.map_values(
            |s: String| s@,
        ));
    }
    Option::Some(out)
}

/// The leading digit run never passes the end of the string.
proof fn lemma_digit_count_bound(s: Seq<char>)
    ensures
        digit_count(s) <= s.len(),
    decreases s.len(),
{
    if s.len() > 0 && is_digit(s[0]) {
        lemma_digit_count_bound(s.drop_first());
    }
}

/// The leading digit run is exactly `m` when the first `m` characters are
/// digits and the next is not (or the string ends).
proof fn lemma_digit_count_exact(s: Seq<char>, m: int)
    requires
        0 <= m <= s.len(),
        forall|t: int| 0 <= t < m ==> is_digit(#[trigger] s[t]),
        m == s.len() || !is_digit(s[m]),
    ensures
        digit_count(s) == m,
    decreases s.len(),
{
    if m > 0 {
        lemma_digit_count_exact(s.drop_first(), m - 1);
    }
}

/// The leading digit run covers every prefix of digits.
proof fn lemma_digit_count_least(s: Seq<char>, m: int)
    requires
        0 <= m < s.len(),
        forall|t: int| 0 <= t <= m ==> is_digit(#[trigger] s[t]),
    ensures
        digit_count(s) > m,
    decreases m,
{
    if m == 0 {
    } else {
        lemma_digit_count_least(s.drop_first(), m - 1);
    }
}

} // verus!

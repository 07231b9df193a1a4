//! The snapshot wire codec: the fixed JSON shape `{"good":G,"evil":E}`
//! over ASCII bytes, with a serializer and a strict deserializer that
//! are exact inverses on well-formed snapshots.

use vstd::prelude::*;

use crate::state::StateDto;

verus! {

/// The canonical decimal digits of `n >= 0`, most significant first.
pub open spec fn dec_rep(n: int) -> Seq<u8>
    decreases n,
{
    if n <= 9 {
        seq![(n + 48) as u8]
    } else {
        dec_rep(n / 10).push((n % 10 + 48) as u8)
    }
}

/// The bytes of `{"good":`.
pub open spec fn json_prefix() -> Seq<u8> {
    seq![123u8, 34u8, 103u8, 111u8, 111u8, 100u8, 34u8, 58u8]
}

/// The bytes of `,"evil":`.
pub open spec fn json_mid() -> Seq<u8> {
    seq![44u8, 34u8, 101u8, 118u8, 105u8, 108u8, 34u8, 58u8]
}

/// The full wire form `{"good":G,"evil":E}` for counter values `g`, `e`.
pub open spec fn json_of(g: int, e: int) -> Seq<u8> {
    json_prefix() + dec_rep(g) + json_mid() + dec_rep(e) + seq![125u8]
}

/// Appends the canonical decimal digits of `n` to `out`.
fn push_dec(out: &mut Vec<u8>, n: i64)
    requires
        0 <= n,
    ensures
        final(out)@ == old(out)@ + dec_rep(n as int),
    decreases n,
{
    if n <= 9 {
        out.push((n + 48) as u8);
        assert(out@ =~= old(out)@ + dec_rep(n as int));
    } else {
        push_dec(out, n / 10);
        out.push((n % 10 + 48) as u8);
        assert(out@ =~= old(out)@ + dec_rep(n as int));
    }
}

/// Serializes a snapshot into the fixed JSON shape.
///
/// Serialization of this shape cannot fail for any well-formed snapshot,
/// so there is no error path.
pub fn serialize(s: &StateDto) -> (r: Vec<u8>)
    requires
        s.wf(),
    ensures
        r@ == json_of(s.good as int, s.evil as int),
{
    let mut out: Vec<u8> = Vec::new();
    out.push(123);
    out.push(34);
    out.push(103);
    out.push(111);
    out.push(111);
    out.push(100);
    out.push(34);
    out.push(58);
    assert(out@ =~= json_prefix());
    push_dec(&mut out, s.good);
    assert(out@ =~= json_prefix() + dec_rep(s.good as int));
    out.push(44);
    out.push(34);
    out.push(101);
    out.push(118);
    out.push(105);
    out.push(108);
    out.push(34);
    out.push(58);
    assert(out@ =~= json_prefix() + dec_rep(s.good as int) + json_mid());
    push_dec(&mut out, s.evil);
    out.push(125);
    assert(out@ =~= json_of(s.good as int, s.evil as int));
    out
}

/// An ASCII decimal digit.
pub open spec fn is_digit(b: u8) -> bool {
    48 <= b && b <= 57
}

/// The first index at or after `i` that does not hold a digit (or the
/// end of `s`).
pub open spec fn digits_end(s: Seq<u8>, i: int) -> int
    decreases s.len() - i,
{
    if i < 0 || i >= s.len() || !is_digit(s[i]) {
        i
    } else {
        digits_end(s, i + 1)
    }
}

/// The value of the decimal digits `s[i..j]`, most significant first.
pub open spec fn digits_val(s: Seq<u8>, i: int, j: int) -> int
    decreases j - i,
{
    if j <= i {
        0
    } else {
        digits_val(s, i, j - 1) * 10 + (s[j - 1] - 48)
    }
}

/// A well-formed counter value starts at `i`: at least one digit, no
/// leading zero, and a value within the 64-bit signed range.
pub open spec fn num_ok(s: Seq<u8>, i: int) -> bool {
    let j = digits_end(s, i);
    j > i && (s[i] != 48 || j == i + 1) && digits_val(s, i, j) <= i64::MAX as int
}

/// `s` starts with the bytes of `{"good":`.
pub open spec fn has_prefix(s: Seq<u8>) -> bool {
    s.len() >= 8 && s[0] == 123 && s[1] == 34 && s[2] == 103 && s[3] == 111 && s[4] == 111
        && s[5] == 100 && s[6] == 34 && s[7] == 58
}

/// The bytes of `,"evil":` stand at index `i` of `s`.
pub open spec fn has_mid(s: Seq<u8>, i: int) -> bool {
    0 <= i && i + 8 <= s.len() && s[i] == 44 && s[i + 1] == 34 && s[i + 2] == 101 && s[i + 3]
        == 118 && s[i + 4] == 105 && s[i + 5] == 108 && s[i + 6] == 34 && s[i + 7] == 58
}

/// The strict parse of the fixed wire shape: `Some((g, e))` exactly when
/// `s` is `{"good":G,"evil":E}` with canonical in-range decimal numbers,
/// `None` otherwise.
pub open spec fn spec_parse(s: Seq<u8>) -> Option<(int, int)> {
    if !has_prefix(s) {
        None
    } else {
        let j1 = digits_end(s, 8);
        if !num_ok(s, 8) {
            None
        } else if !has_mid(s, j1) {
            None
        } else {
            let j2 = digits_end(s, j1 + 8);
            if !num_ok(s, j1 + 8) {
                None
            } else if !(j2 + 1 == s.len() && s[j2] == 125) {
                None
            } else {
                Some((digits_val(s, 8, j1), digits_val(s, j1 + 8, j2)))
            }
        }
    }
}

/// The canonical decimal form of `n >= 0` is non-empty and all digits.
pub proof fn lemma_dec_rep_digits(n: int)
    requires
        0 <= n,
    ensures
        dec_rep(n).len() >= 1,
        forall|k: int| 0 <= k < dec_rep(n).len() ==> is_digit(#[trigger] dec_rep(n)[k]),
    decreases n,
{
    if n <= 9 {
    } else {
        lemma_dec_rep_digits(n / 10);
        assert forall|k: int| 0 <= k < dec_rep(n).len() implies is_digit(
            #[trigger] dec_rep(n)[k],
        ) by {
            if k < dec_rep(n).len() - 1 {
                assert(dec_rep(n)[k] == dec_rep(n / 10)[k]);
            } else {
                assert(dec_rep(n)[k] == (n % 10 + 48) as u8);
            }
        };
    }
}

/// The canonical decimal form of `n >= 1` has no leading zero.
pub proof fn lemma_dec_rep_first(n: int)
    requires
        1 <= n,
    ensures
        dec_rep(n)[0] != 48,
    decreases n,
{
    if n <= 9 {
    } else {
        lemma_dec_rep_digits(n / 10);
        lemma_dec_rep_first(n / 10);
        assert(dec_rep(n)[0] == dec_rep(n / 10)[0]);
    }
}

/// Where a digit run `s[i..j]` ends at a boundary (end of `s` or a
/// non-digit), `digits_end` finds exactly `j`.
pub proof fn lemma_digits_end_at(s: Seq<u8>, i: int, j: int)
    requires
        0 <= i <= j <= s.len(),
        forall|k: int| i <= k < j ==> is_digit(#[trigger] s[k]),
        j == s.len() || !is_digit(s[j]),
    ensures
        digits_end(s, i) == j,
    decreases j - i,
{
    if i < j {
        assert(is_digit(s[i]));
        lemma_digits_end_at(s, i + 1, j);
    }
}

/// Reading back the canonical decimal form of `n` placed at index `i`
/// of `s` yields `n` again.
pub proof fn lemma_digits_val_at(s: Seq<u8>, i: int, n: int)
    requires
        0 <= i,
        0 <= n,
        i + dec_rep(n).len() <= s.len(),
        forall|k: int| 0 <= k < dec_rep(n).len() ==> s[i + k] == #[trigger] dec_rep(n)[k],
    ensures
        digits_val(s, i, i + dec_rep(n).len()) == n,
    decreases n,
{
    if n <= 9 {
        assert(s[i] == dec_rep(n)[0]);
        assert(digits_val(s, i, i + 1) == digits_val(s, i, i) * 10 + (s[i] - 48));
    } else {
        let d = dec_rep(n);
        let dq = dec_rep(n / 10);
        lemma_dec_rep_digits(n / 10);
        assert(d == dq.push((n % 10 + 48) as u8));
        assert forall|k: int| 0 <= k < dq.len() implies s[i + k] == #[trigger] dq[k] by {
            assert(d[k] == dq[k]);
            assert(s[i + k] == d[k]);
        };
        lemma_digits_val_at(s, i, n / 10);
        assert(s[i + d.len() - 1] == d[d.len() - 1]);
        assert(d[d.len() - 1] == (n % 10 + 48) as u8);
        assert(digits_val(s, i, i + d.len()) == digits_val(s, i, i + d.len() - 1) * 10 + (s[i
            + d.len() - 1] - 48));
        assert(n / 10 * 10 + n % 10 == n);
    }
}

/// Reads one decimal counter value starting at `start`: the digit run's
/// value and its end index, or `None` where no well-formed in-range
/// number stands there.
fn parse_num(v: &Vec<u8>, start: usize) -> (r: Option<(i64, usize)>)
    requires
        start <= v@.len(),
    ensures
        match r {
            Some((val, end)) => {
                &&& num_ok(v@, start as int)
                &&& end == digits_end(v@, start as int)
                &&& start < end <= v@.len()
                &&& val == digits_val(v@, start as int, end as int)
                &&& 0 <= val
            },
            None => !num_ok(v@, start as int),
        },
{
    let n = v.len();
    let mut i: usize = start;
    let mut acc: i64 = 0;
    let mut overflow: bool = false;
    while i < n && 48 <= v[i] && v[i] <= 57
        invariant
            start <= i <= n,
            n == v@.len(),
            forall|k: int| start <= k < i ==> is_digit(#[trigger] v@[k]),
            digits_end(v@, start as int) == digits_end(v@, i as int),
            !overflow ==> acc == digits_val(v@, start as int, i as int),
            overflow ==> digits_val(v@, start as int, i as int) > i64::MAX as int,
            0 <= acc,
        decreases n - i,
    {
        let d: u8 = v[i] - 48;
        proof {
            assert(digits_end(v@, i as int) == digits_end(v@, i as int + 1));
            assert(digits_val(v@, start as int, i as int + 1) == digits_val(
                v@,
                start as int,
                i as int,
            ) * 10 + (v@[i as int] - 48));
        }
        if !overflow {
            let limit: i64 = (i64::MAX - d as i64) / 10;
            if acc > limit {
                overflow = true;
                proof {
                    assert(acc * 10 >= (limit + 1) * 10);
                    assert((limit + 1) * 10 > i64::MAX - d);
                }
            } else {
                proof {
                    assert(acc * 10 <= limit * 10);
                    assert(limit * 10 <= i64::MAX - d);
                }
                acc = acc * 10 + d as i64;
            }
        } else {
            proof {
                let w = digits_val(v@, start as int, i as int);
                assert(w * 10 + (v@[i as int] - 48) >= w);
            }
        }
        i = i + 1;
    }
    proof {
        assert(digits_end(v@, i as int) == i);
    }
    if i == start {
        return None;
    }
    if v[start] == 48 && i - start > 1 {
        return None;
    }
    if overflow {
        return None;
    }
    Some((acc, i))
}

/// Parses the fixed wire shape strictly, mirroring `spec_parse` exactly:
/// `Some` on precisely the strings that `serialize` produces for
/// well-formed snapshots, `None` on everything else.
pub fn deserialize(v: &Vec<u8>) -> (r: Option<StateDto>)
    ensures
        match r {
            Some(st) => st.wf() && spec_parse(v@) == Some((st.good as int, st.evil as int)),
            None => spec_parse(v@) is None,
        },
{
    let n = v.len();
    if n < 8 {
        return None;
    }
    if v[0] != 123 || v[1] != 34 || v[2] != 103 || v[3] != 111 || v[4] != 111 || v[5] != 100
        || v[6] != 34 || v[7] != 58 {
        return None;
    }
    let (g, j1) = match parse_num(v, 8) {
        Some(p) => p,
        None => {
            return None;
        },
    };
    if n - j1 < 8 {
        return None;
    }
    if v[j1] != 44 || v[j1 + 1] != 34 || v[j1 + 2] != 101 || v[j1 + 3] != 118 || v[j1 + 4] != 105
        || v[j1 + 5] != 108 || v[j1 + 6] != 34 || v[j1 + 7] != 58 {
        return None;
    }
    let (e, j2) = match parse_num(v, j1 + 8) {
        Some(p) => p,
        None => {
            return None;
        },
    };
    if j2 != n - 1 {
        return None;
    }
    if v[j2] != 125 {
        return None;
    }
    Some(StateDto { good: g, evil: e })
}

/// Round trip: parsing the serialized form of any in-range pair yields
/// that pair back exactly.
pub proof fn lemma_json_round_trip(g: int, e: int)
    requires
        0 <= g <= i64::MAX as int,
        0 <= e <= i64::MAX as int,
    ensures
        spec_parse(json_of(g, e)) == Some((g, e)),
{
    let s = json_of(g, e);
    let p = json_prefix();
    let m = json_mid();
    let d1 = dec_rep(g);
    let d2 = dec_rep(e);
    lemma_dec_rep_digits(g);
    lemma_dec_rep_digits(e);
    let l1 = d1.len() as int;
    let l2 = d2.len() as int;
    let a = p + d1;
    let b = a + m;
    let c = b + d2;
    assert(s == c + seq![125u8]);
    assert(s.len() == 17 + l1 + l2);
    assert(forall|k: int| 0 <= k < 8 ==> #[trigger] s[k] == p[k]);
    assert(forall|k: int| 0 <= k < l1 ==> #[trigger] s[8 + k] == d1[k]);
    assert(forall|k: int| 0 <= k < 8 ==> #[trigger] s[8 + l1 + k] == m[k]);
    assert(forall|k: int| 0 <= k < l2 ==> #[trigger] s[16 + l1 + k] == d2[k]);
    assert(s[16 + l1 + l2] == 125);
    // the opening `{"good":`
    assert(has_prefix(s));
    // the first digit run and its boundary
    assert forall|k: int| 8 <= k < 8 + l1 implies is_digit(#[trigger] s[k]) by {
        assert(s[8 + (k - 8)] == d1[k - 8]);
        assert(is_digit(d1[k - 8]));
    };
    assert(s[8 + l1 + 0] == m[0]);
    assert(!is_digit(s[8 + l1]));
    lemma_digits_end_at(s, 8, 8 + l1);
    // the first number is canonical and in range
    if g >= 1 {
        lemma_dec_rep_first(g);
        assert(s[8int + 0] == d1[0]);
        assert(s[8] != 48);
    } else {
        assert(l1 == 1);
    }
    assert(forall|k: int| 0 <= k < l1 ==> s[8 + k] == #[trigger] d1[k]);
    lemma_digits_val_at(s, 8, g);
    assert(num_ok(s, 8));
    // the separating `,"evil":`
    assert(has_mid(s, 8 + l1));
    // the second digit run and its boundary
    assert forall|k: int| 16 + l1 <= k < 16 + l1 + l2 implies is_digit(#[trigger] s[k]) by {
        assert(s[16 + l1 + (k - 16 - l1)] == d2[k - 16 - l1]);
        assert(is_digit(d2[k - 16 - l1]));
    };
    assert(!is_digit(s[16 + l1 + l2]));
    lemma_digits_end_at(s, 16 + l1, 16 + l1 + l2);
    // the second number is canonical and in range
    if e >= 1 {
        lemma_dec_rep_first(e);
        assert(s[16 + l1 + 0] == d2[0]);
        assert(s[16 + l1] != 48);
    } else {
        assert(l2 == 1);
    }
    assert(forall|k: int| 0 <= k < l2 ==> s[16 + l1 + k] == #[trigger] d2[k]);
    lemma_digits_val_at(s, 16 + l1, e);
    assert(num_ok(s, 16 + l1));
    // the closing `}` stands exactly at the end
    assert(s[16 + l1 + l2] == 125 && 16 + l1 + l2 + 1 == s.len());
    assert(spec_parse(s) == Some((g, e)));
}

/// Serialization is injective on in-range pairs: equal wire forms come
/// from equal pairs. Together with the round trip this makes the codec
/// a bijection between in-range pairs and their wire forms.
pub proof fn lemma_serialize_injective(g1: int, e1: int, g2: int, e2: int)
    requires
        0 <= g1 <= i64::MAX as int,
        0 <= e1 <= i64::MAX as int,
        0 <= g2 <= i64::MAX as int,
        0 <= e2 <= i64::MAX as int,
        json_of(g1, e1) == json_of(g2, e2),
    ensures
        g1 == g2,
        e1 == e2,
{
    lemma_json_round_trip(g1, e1);
    lemma_json_round_trip(g2, e2);
}

} // verus!

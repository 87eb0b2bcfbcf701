use vstd::prelude::*;
use vstd::slice::slice_subrange;
use crate::errors::OracleError;

verus! {

/// A quoted price as an exact ratio: `num / den` output units per input
/// unit. A decimal quote of `d` digits after the point carries `den ==
/// 10^d`.
#[derive(Clone, Copy, PartialEq, Eq, Structural, Debug)]
pub struct OracleRate {
    pub num: u64,
    pub den: u64,
}

/// Whether the pattern occurs in `s` at position `i`.
pub open spec fn matches_at(s: Seq<u8>, pat: Seq<u8>, i: int) -> bool {
    &&& 0 <= i
    &&& i + pat.len() <= s.len()
    &&& forall|j: int| 0 <= j < pat.len() ==> s[i + j] == pat[j]
}

/// Whether the pattern occurs in `s` at all.
pub open spec fn has_match(s: Seq<u8>, pat: Seq<u8>) -> bool {
    exists|i: int| matches_at(s, pat, i)
}

/// The first position at which the pattern occurs.
pub open spec fn first_match_idx(s: Seq<u8>, pat: Seq<u8>) -> int {
    choose|i: int| matches_at(s, pat, i) && (forall|j: int| 0 <= j < i ==> !matches_at(s, pat, j))
}

/// The position of the first occurrence of the pattern, scanned left to
/// right.
pub fn find_subslice(hay: &[u8], pat: &[u8]) -> (r: Option<usize>)
    requires
        pat@.len() >= 1,
    ensures
        match r {
            Some(i) => matches_at(hay@, pat@, i as int) && (forall|j: int|
                0 <= j < i ==> !matches_at(hay@, pat@, j)),
            None => forall|j: int| !matches_at(hay@, pat@, j),
        },
{
    let hn = hay.len();
    let pn = pat.len();
    if pn > hn {
        return None;
    }
    let last = hn - pn;
    let mut i: usize = 0;
    while i <= last
        invariant
            pn == pat@.len(),
            hn == hay@.len(),
            pn <= hn,
            last == hn - pn,
            i <= last + 1,
            forall|j: int| 0 <= j < i ==> !matches_at(hay@, pat@, j),
        decreases last + 1 - i,
    {
        if region_eq(hay, pat, i) {
            return Some(i);
        }
        i += 1;
    }
    proof {
        assert forall|j: int| !matches_at(hay@, pat@, j) by {
            if matches_at(hay@, pat@, j) {
                assert(0 <= j <= hn - pn);
            }
        }
    }
    None
}

/// Whether the pattern occurs at one given position.
fn region_eq(hay: &[u8], pat: &[u8], i: usize) -> (r: bool)
    requires
        i + pat@.len() <= hay@.len(),
    ensures
        r == matches_at(hay@, pat@, i as int),
{
    let pn = pat.len();
    let hn = hay.len();
    let mut k: usize = 0;
    while k < pn
        invariant
            pn == pat@.len(),
            hn == hay@.len(),
            i + pn <= hn,
            k <= pn,
            forall|j: int| 0 <= j < k ==> hay@[i + j] == pat@[j],
        decreases pn - k,
    {
        if hay[i + k] != pat[k] {
            proof {
                assert(hay@[i + k] != pat@[k as int]);
                assert(!matches_at(hay@, pat@, i as int));
            }
            return false;
        }
        k += 1;
    }
    proof {
        assert(matches_at(hay@, pat@, i as int));
    }
    true
}

/// Whether a byte spells a decimal digit.
pub open spec fn is_digit_byte(b: u8) -> bool {
    48 <= b <= 57
}

/// Whether every byte of a text spells a decimal digit.
pub open spec fn all_digit_bytes(s: Seq<u8>) -> bool {
    forall|i: int| 0 <= i < s.len() ==> is_digit_byte(s[i])
}

/// The number a run of decimal digit bytes spells, most significant first.
pub open spec fn digits_val(s: Seq<u8>) -> int
    decreases s.len(),
{
    if s.len() == 0 {
        0
    } else {
        digits_val(s.drop_last()) * 10 + (s.last() - 48)
    }
}

/// Ten to the given power.
pub open spec fn pow10(k: int) -> int
    decreases k,
{
    if k <= 0 {
        1
    } else {
        10 * pow10(k - 1)
    }
}

proof fn lemma_digits_val_nonneg(s: Seq<u8>)
    requires
        all_digit_bytes(s),
    ensures
        digits_val(s) >= 0,
    decreases s.len(),
{
    if s.len() > 0 {
        assert(all_digit_bytes(s.drop_last()));
        lemma_digits_val_nonneg(s.drop_last());
    }
}

/// Appending digits never shrinks the number a digit run spells.
proof fn lemma_digits_val_prefix(s: Seq<u8>, k: int)
    requires
        all_digit_bytes(s),
        0 <= k <= s.len(),
    ensures
        digits_val(s.take(k)) <= digits_val(s),
    decreases s.len() - k,
{
    if k < s.len() {
        lemma_digits_val_prefix(s, k + 1);
        let t = s.take(k + 1);
        assert(t.drop_last() =~= s.take(k));
        assert(all_digit_bytes(t));
        assert(all_digit_bytes(s.take(k)));
        lemma_digits_val_nonneg(s.take(k));
        assert(digits_val(t) == digits_val(s.take(k)) * 10 + (t.last() - 48));
        assert(digits_val(s.take(k)) * 10 >= digits_val(s.take(k)));
    } else {
        assert(s.take(k) =~= s);
    }
}

proof fn lemma_pow10_mono(a: int, b: int)
    requires
        0 <= a <= b,
    ensures
        pow10(a) <= pow10(b),
        pow10(a) >= 1,
    decreases b,
{
    if a < b {
        lemma_pow10_mono(a, b - 1);
    } else if b > 0 {
        lemma_pow10_mono(0, b - 1);
    }
}

/// Parses a run of decimal digits, continuing from an already-accumulated
/// prefix value.
fn parse_digits_acc(acc: u64, t: &[u8], Ghost(pre): Ghost<Seq<u8>>) -> (r: Option<u64>)
    requires
        all_digit_bytes(pre),
        acc == digits_val(pre),
    ensures
        match r {
            Some(v) => all_digit_bytes(pre + t@) && digits_val(pre + t@) <= u64::MAX && v
                == digits_val(pre + t@),
            None => !(all_digit_bytes(pre + t@) && digits_val(pre + t@) <= u64::MAX),
        },
{
    let n = t.len();
    let mut acc = acc;
    let mut i: usize = 0;
    proof {
        assert(pre + t@.take(0) =~= pre);
    }
    while i < n
        invariant
            n == t@.len(),
            i <= n,
            all_digit_bytes(pre + t@.take(i as int)),
            acc == digits_val(pre + t@.take(i as int)),
        decreases n - i,
    {
        let b = t[i];
        if b < 48 || b > 57 {
            proof {
                assert(!is_digit_byte((pre + t@)[pre.len() + i]));
                assert(!all_digit_bytes(pre + t@));
            }
            return None;
        }
        let ghost s_old = pre + t@.take(i as int);
        let acc10 = match acc.checked_mul(10) {
            Some(x) => x,
            None => {
                proof {
                    overflow_case(pre, t@, i as int, acc, b);
                }
                return None;
            },
        };
        let acc2 = match acc10.checked_add((b - 48) as u64) {
            Some(x) => x,
            None => {
                proof {
                    overflow_case(pre, t@, i as int, acc, b);
                }
                return None;
            },
        };
        proof {
            let s_new = pre + t@.take(i + 1);
            assert(s_new.drop_last() =~= s_old);
            assert(s_new.last() == b);
            assert(digits_val(s_new) == digits_val(s_old) * 10 + (b - 48));
            assert forall|j: int| 0 <= j < s_new.len() implies is_digit_byte(s_new[j]) by {
                if j < s_new.len() - 1 {
                    assert(s_new[j] == s_old[j]);
                } else {
                    assert(s_new[j] == b);
                }
            }
        }
        acc = acc2;
        i += 1;
    }
    proof {
        assert(pre + t@.take(n as int) =~= pre + t@);
    }
    Some(acc)
}

/// If one more digit overflows the accumulator, the whole run spells a
/// number beyond the integer width.
proof fn overflow_case(pre: Seq<u8>, t: Seq<u8>, i: int, acc: u64, b: u8)
    requires
        0 <= i < t.len(),
        all_digit_bytes(pre + t.take(i)),
        acc == digits_val(pre + t.take(i)),
        is_digit_byte(b),
        t[i] == b,
        acc * 10 + (b - 48) > u64::MAX,
    ensures
        !(all_digit_bytes(pre + t) && digits_val(pre + t) <= u64::MAX),
{
    if all_digit_bytes(pre + t) {
        let s_new = pre + t.take(i + 1);
        assert(s_new.drop_last() =~= pre + t.take(i));
        assert(s_new.last() == b);
        assert(digits_val(s_new) == acc * 10 + (b - 48));
        assert(all_digit_bytes(s_new)) by {
            assert(forall|j: int| 0 <= j < s_new.len() ==> s_new[j] == (pre + t)[j]);
        }
        assert(s_new =~= (pre + t).take(pre.len() + i + 1));
        lemma_digits_val_prefix(pre + t, pre.len() + i + 1);
    }
}

/// The position of the first decimal point, when one occurs.
pub open spec fn dot_pos(s: Seq<u8>) -> int {
    first_match_idx(s, seq![46u8])
}

pub open spec fn has_dot(s: Seq<u8>) -> bool {
    has_match(s, seq![46u8])
}

/// The digits before the decimal point (the whole text without one).
pub open spec fn int_part(s: Seq<u8>) -> Seq<u8> {
    if has_dot(s) {
        s.take(dot_pos(s))
    } else {
        s
    }
}

/// The digits after the decimal point (empty without one).
pub open spec fn frac_part(s: Seq<u8>) -> Seq<u8> {
    if has_dot(s) {
        s.skip(dot_pos(s) + 1)
    } else {
        Seq::empty()
    }
}

/// A well-formed decimal quote: a nonempty run of digits, optionally
/// followed by a point and a nonempty run of digits.
pub open spec fn well_formed_decimal(s: Seq<u8>) -> bool {
    &&& int_part(s).len() > 0
    &&& all_digit_bytes(int_part(s))
    &&& all_digit_bytes(frac_part(s))
    &&& has_dot(s) ==> frac_part(s).len() > 0
}

/// The numerator a decimal quote spells: its digits with the point removed.
pub open spec fn mantissa(s: Seq<u8>) -> int {
    digits_val(int_part(s) + frac_part(s))
}

/// The denominator a decimal quote spells: ten to its count of fraction
/// digits.
pub open spec fn scale(s: Seq<u8>) -> int {
    pow10(frac_part(s).len() as int)
}

/// What parsing a decimal quote yields: its exact ratio, or nothing where
/// the text is not a well-formed decimal or a side does not fit the
/// integer width.
pub open spec fn spec_parse_price(s: Seq<u8>) -> Option<OracleRate> {
    if well_formed_decimal(s) && mantissa(s) <= u64::MAX && scale(s) <= u64::MAX {
        Some((OracleRate { num: mantissa(s) as u64, den: scale(s) as u64 }))
    } else {
        None
    }
}

/// Ten to the given power, within the integer width.
fn pow10_checked(k: usize) -> (r: Option<u64>)
    ensures
        match r {
            Some(v) => pow10(k as int) <= u64::MAX && v == pow10(k as int),
            None => pow10(k as int) > u64::MAX,
        },
{
    let mut acc: u64 = 1;
    let mut j: usize = 0;
    while j < k
        invariant
            j <= k,
            acc == pow10(j as int),
        decreases k - j,
    {
        acc = match acc.checked_mul(10) {
            Some(x) => x,
            None => {
                proof {
                    lemma_pow10_mono(j + 1, k as int);
                }
                return None;
            },
        };
        j += 1;
    }
    Some(acc)
}

/// Parses a decimal quote into its exact ratio.
pub fn parse_price(t: &[u8]) -> (r: Option<OracleRate>)
    ensures
        r == spec_parse_price(t@),
{
    let n = t.len();
    let dotpat: [u8; 1] = [46u8];
    let dot = find_subslice(t, &dotpat);
    proof {
        assert(dotpat@ =~= seq![46u8]);
    }
    match dot {
        None => {
            proof {
                assert(!has_dot(t@));
                assert(int_part(t@) == t@);
                assert(frac_part(t@) =~= Seq::<u8>::empty());
            }
            if n == 0 {
                return None;
            }
            let ghost pre = Seq::<u8>::empty();
            proof {
                assert(pre + t@ =~= t@);
                assert(int_part(t@) + frac_part(t@) =~= t@);
            }
            match parse_digits_acc(0, t, Ghost(pre)) {
                None => None,
                Some(v) => Some(OracleRate { num: v, den: 1 }),
            }
        },
        Some(d) => {
            proof {
                assert(has_dot(t@));
                assert(dot_pos(t@) == d) by {
                    let p = dot_pos(t@);
                    assert(matches_at(t@, seq![46u8], d as int) && (forall|j: int|
                        0 <= j < d ==> !matches_at(t@, seq![46u8], j)));
                    assert(matches_at(t@, seq![46u8], p) && (forall|j: int|
                        0 <= j < p ==> !matches_at(t@, seq![46u8], j)));
                    if p < d {
                        assert(!matches_at(t@, seq![46u8], p));
                    }
                    if d < p {
                        assert(!matches_at(t@, seq![46u8], d as int));
                    }
                }
            }
            if d == 0 {
                proof {
                    assert(int_part(t@).len() == 0);
                }
                return None;
            }
            if d + 1 == n {
                proof {
                    assert(frac_part(t@).len() == 0);
                }
                return None;
            }
            let ipart = slice_subrange(t, 0, d);
            let fpart = slice_subrange(t, d + 1, n);
            proof {
                assert(ipart@ =~= int_part(t@));
                assert(fpart@ =~= frac_part(t@));
            }
            let ghost pre0 = Seq::<u8>::empty();
            proof {
                assert(pre0 + ipart@ =~= ipart@);
            }
            let iv = match parse_digits_acc(0, ipart, Ghost(pre0)) {
                None => {
                    proof {
                        no_price_when_int_part_fails(t@);
                    }
                    return None;
                },
                Some(v) => v,
            };
            match parse_digits_acc(iv, fpart, Ghost(ipart@)) {
                None => {
                    proof {
                        if well_formed_decimal(t@) && mantissa(t@) <= u64::MAX {
                            lemma_digits_concat(int_part(t@), frac_part(t@));
                        }
                    }
                    None
                },
                Some(num) => {
                    proof {
                        lemma_digits_split(ipart@, fpart@);
                        assert(well_formed_decimal(t@));
                        assert(mantissa(t@) == num);
                    }
                    match pow10_checked(fpart.len()) {
                        None => None,
                        Some(den) => {
                            proof {
                                assert(scale(t@) == den);
                            }
                            Some(OracleRate { num, den })
                        },
                    }
                },
            }
        },
    }
}

/// Two digit runs joined are again one digit run.
proof fn lemma_digits_concat(a: Seq<u8>, b: Seq<u8>)
    requires
        all_digit_bytes(a),
        all_digit_bytes(b),
    ensures
        all_digit_bytes(a + b),
{
    assert forall|j: int| 0 <= j < (a + b).len() implies is_digit_byte((a + b)[j]) by {
        if j < a.len() {
            assert((a + b)[j] == a[j]);
        } else {
            assert((a + b)[j] == b[j - a.len()]);
        }
    }
}

/// Both halves of a joined digit run are digit runs.
proof fn lemma_digits_split(a: Seq<u8>, b: Seq<u8>)
    requires
        all_digit_bytes(a + b),
    ensures
        all_digit_bytes(a),
        all_digit_bytes(b),
{
    assert forall|j: int| 0 <= j < a.len() implies is_digit_byte(a[j]) by {
        assert(a[j] == (a + b)[j]);
    }
    assert forall|j: int| 0 <= j < b.len() implies is_digit_byte(b[j]) by {
        assert(b[j] == (a + b)[a.len() + j]);
    }
}

/// A quote whose whole-number digits already fail to parse spells no price
/// within the integer width.
proof fn no_price_when_int_part_fails(s: Seq<u8>)
    requires
        has_dot(s),
        !(all_digit_bytes(int_part(s)) && digits_val(int_part(s)) <= u64::MAX),
    ensures
        spec_parse_price(s) is None,
{
    if well_formed_decimal(s) && mantissa(s) <= u64::MAX {
        let whole = int_part(s) + frac_part(s);
        lemma_digits_concat(int_part(s), frac_part(s));
        assert(whole.take(int_part(s).len() as int) =~= int_part(s));
        lemma_digits_val_prefix(whole, int_part(s).len() as int);
    }
}

/// The marker the oracle's reply carries just before the quoted price.
pub open spec fn price_marker() -> Seq<u8> {
    seq![34u8, 112u8, 114u8, 105u8, 99u8, 101u8, 34u8, 58u8, 34u8]
}

/// The quoted price text inside an oracle reply: the bytes between the
/// first price marker and the next quote mark, when both occur.
pub open spec fn price_text(s: Seq<u8>) -> Option<Seq<u8>> {
    if !has_match(s, price_marker()) {
        None
    } else {
        let rest = s.skip(first_match_idx(s, price_marker()) + price_marker().len() as int);
        if !has_match(rest, seq![34u8]) {
            None
        } else {
            Some(rest.take(first_match_idx(rest, seq![34u8])))
        }
    }
}

/// What reading a whole oracle reply yields: the rate its quoted price
/// spells, or `Unavailable` where no well-formed quote is found.
pub open spec fn spec_read_quote(s: Seq<u8>) -> Result<OracleRate, OracleError> {
    match price_text(s) {
        None => Err(OracleError::Unavailable),
        Some(t) => match spec_parse_price(t) {
            None => Err(OracleError::Unavailable),
            Some(rate) => Ok(rate),
        },
    }
}

/// The price marker as a byte vector.
fn price_marker_vec() -> (r: Vec<u8>)
    ensures
        r@ == price_marker(),
{
    let mut marker: Vec<u8> = Vec::new();
    marker.push(34u8);
    marker.push(112u8);
    marker.push(114u8);
    marker.push(105u8);
    marker.push(99u8);
    marker.push(101u8);
    marker.push(34u8);
    marker.push(58u8);
    marker.push(34u8);
    proof {
        assert(marker@ =~= price_marker());
    }
    marker
}

/// Reads the quoted price out of an oracle reply body.
#[verifier::rlimit(30)]
pub fn read_quote(body: &[u8]) -> (r: Result<OracleRate, OracleError>)
    ensures
        r == spec_read_quote(body@),
{
    let marker = price_marker_vec();
    let bn = body.len();
    let start = match find_subslice(body, marker.as_slice()) {
        None => {
            proof {
                assert(!has_match(body@, price_marker()));
            }
            return Err(OracleError::Unavailable);
        },
        Some(p) => {
            proof {
                assert(p + 9 <= bn);
            }
            p + 9
        },
    };
    proof {
        assert(first_match_idx(body@, price_marker()) == start - 9) by {
            uniq_first_match(body@, price_marker(), start - 9);
        }
    }
    let rest = slice_subrange(body, start, bn);
    proof {
        assert(rest@ =~= body@.skip(start as int));
    }
    let quotepat: [u8; 1] = [34u8];
    proof {
        assert(quotepat@ =~= seq![34u8]);
    }
    let end = match find_subslice(rest, &quotepat) {
        None => {
            proof {
                assert(!has_match(rest@, seq![34u8]));
            }
            return Err(OracleError::Unavailable);
        },
        Some(e) => e,
    };
    proof {
        assert(first_match_idx(rest@, seq![34u8]) == end) by {
            uniq_first_match(rest@, seq![34u8], end as int);
        }
    }
    let text = slice_subrange(rest, 0, end);
    proof {
        assert(text@ =~= rest@.take(end as int));
    }
    match parse_price(text) {
        None => Err(OracleError::Unavailable),
        Some(rate) => Ok(rate),
    }
}

/// A position that matches with none before it is the first match.
proof fn uniq_first_match(s: Seq<u8>, pat: Seq<u8>, i: int)
    requires
        matches_at(s, pat, i),
        forall|j: int| 0 <= j < i ==> !matches_at(s, pat, j),
    ensures
        first_match_idx(s, pat) == i,
{
    let p = first_match_idx(s, pat);
    assert(matches_at(s, pat, p) && (forall|j: int| 0 <= j < p ==> !matches_at(s, pat, j)));
    if p < i {
        assert(!matches_at(s, pat, p));
    }
    if i < p {
        assert(!matches_at(s, pat, i));
    }
}

/// The source amount converted at the quoted rate, truncated toward zero.
pub open spec fn spec_expected_output(amount: u64, rate: OracleRate) -> int {
    (amount * rate.num) as int / rate.den as int
}

/// The minimum swap output the pipeline will accept: ninety-nine percent
/// of the expected output, truncated toward zero.
pub open spec fn spec_output_floor(amount: u64, rate: OracleRate) -> int {
    spec_expected_output(amount, rate) * 99 / 100
}

/// What the slippage floor computation yields for a given rate: the floor,
/// or the failure observed before any funds move.
pub open spec fn spec_settlement_floor(amount: u64, rate: OracleRate) -> Result<u64, OracleError> {
    if rate.den == 0 {
        Err(OracleError::PriceZero)
    } else if spec_expected_output(amount, rate) > u64::MAX {
        Err(OracleError::EstimateOverflow)
    } else {
        Ok((spec_output_floor(amount, rate) as u64))
    }
}

/// What evaluating a whole quote yields: the slippage floor for the rate
/// it carries, or the oracle failure it reports.
pub open spec fn quote_outcome(amount: u64, quote: Result<OracleRate, OracleError>) -> Result<
    u64,
    OracleError,
> {
    match quote {
        Ok(rate) => spec_settlement_floor(amount, rate),
        Err(e) => Err(e),
    }
}

/// Computes the minimum-output floor for one settlement: the source amount
/// converted at the quoted rate, cut to ninety-nine percent, truncated
/// toward zero. A zero-denominator price is fatal before any charge.
pub fn settlement_floor(amount: u64, rate: OracleRate) -> (r: Result<u64, OracleError>)
    ensures
        r == spec_settlement_floor(amount, rate),
{
    if rate.den == 0 {
        return Err(OracleError::PriceZero);
    }
    proof {
        assert((amount as int) * (rate.num as int) <= (u64::MAX as int) * (u64::MAX as int))
            by (nonlinear_arith)
            requires
                amount <= u64::MAX,
                rate.num <= u64::MAX,
        ;
    }
    let prod: u128 = (amount as u128) * (rate.num as u128);
    let expected: u128 = prod / (rate.den as u128);
    if expected > u64::MAX as u128 {
        return Err(OracleError::EstimateOverflow);
    }
    proof {
        assert((expected as int) * 99 <= (u64::MAX as int) * 99) by (nonlinear_arith)
            requires
                expected <= u64::MAX,
        ;
        assert((u64::MAX as int) * 99 <= 100 * (u64::MAX as int));
        vstd::arithmetic::div_mod::lemma_div_is_ordered(
            (expected as int) * 99,
            100 * (u64::MAX as int),
            100,
        );
        vstd::arithmetic::div_mod::lemma_div_multiples_vanish(u64::MAX as int, 100);
        assert((expected as int) * 99 / 100 <= u64::MAX as int);
    }
    let floor: u128 = expected * 99 / 100;
    Ok(floor as u64)
}

} // verus!

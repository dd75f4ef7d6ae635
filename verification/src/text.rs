//! Character and number lexing shared by every surface.
//!
//! Raw cells arrive as text: digits with thousands separators, fixed-point
//! prices with an optional sign and fraction, and words split by whitespace.
//! The spec functions here define those readings over `Seq<char>`; the
//! executable functions compute them over `Vec<char>` and are proved to match.

use vstd::prelude::*;

verus! {

/// The Unicode white-space characters, as `char::is_whitespace` knows them.
pub open spec fn is_blank_char(c: char) -> bool {
    c == ' ' || c == '\u{85}' || c == '\u{a0}' || c == '\u{1680}' || c == '\u{2028}'
        || c == '\u{2029}' || c == '\u{202f}' || c == '\u{205f}' || c == '\u{3000}'
        || ('\u{9}' <= c && c <= '\u{d}') || ('\u{2000}' <= c && c <= '\u{200a}')
}

pub fn blank_char(c: char) -> (r: bool)
    ensures
        r == is_blank_char(c),
{
    c == ' ' || c == '\u{85}' || c == '\u{a0}' || c == '\u{1680}' || c == '\u{2028}'
        || c == '\u{2029}' || c == '\u{202f}' || c == '\u{205f}' || c == '\u{3000}'
        || ('\u{9}' <= c && c <= '\u{d}') || ('\u{2000}' <= c && c <= '\u{200a}')
}

pub open spec fn is_all_blank(s: Seq<char>) -> bool {
    forall|i: int| 0 <= i < s.len() ==> is_blank_char(s[i])
}

pub open spec fn is_digit_char(c: char) -> bool {
    '0' <= c && c <= '9'
}

pub open spec fn digit_val(c: char) -> int {
    c as int - '0' as int
}

pub open spec fn all_digits(s: Seq<char>) -> bool {
    forall|i: int| 0 <= i < s.len() ==> is_digit_char(s[i])
}

/// Value of a digit string, most significant digit first.
pub open spec fn digits_val(s: Seq<char>) -> int
    decreases s.len(),
{
    if s.len() == 0 {
        0
    } else {
        digits_val(s.drop_last()) * 10 + digit_val(s.last())
    }
}

pub proof fn lemma_digits_val_nonneg(s: Seq<char>)
    requires
        all_digits(s),
    ensures
        digits_val(s) >= 0,
    decreases s.len(),
{
    if s.len() > 0 {
        assert(all_digits(s.drop_last()));
        lemma_digits_val_nonneg(s.drop_last());
    }
}

/// A digit string's value is below ten to its length.
pub proof fn lemma_digits_val_bound(s: Seq<char>)
    requires
        all_digits(s),
    ensures
        digits_val(s) < pow10(s.len()),
    decreases s.len(),
{
    if s.len() > 0 {
        assert(all_digits(s.drop_last()));
        lemma_digits_val_bound(s.drop_last());
        lemma_digits_val_nonneg(s.drop_last());
        assert(pow10(s.len()) == pow10((s.len() - 1) as nat) * 10);
    }
}

/// Extending a digit string cannot lower its value.
pub proof fn lemma_digits_val_prefix_le(s: Seq<char>, i: int)
    requires
        all_digits(s),
        0 <= i <= s.len(),
    ensures
        digits_val(s.subrange(0, i)) <= digits_val(s),
    decreases s.len() - i,
{
    if i == s.len() {
        assert(s.subrange(0, i) =~= s);
    } else {
        let p = s.subrange(0, i);
        let q = s.subrange(0, i + 1);
        assert(q.drop_last() =~= p);
        lemma_digits_val_nonneg(p);
        lemma_digits_val_prefix_le(s, i + 1);
    }
}

pub open spec fn pow10(n: nat) -> int
    decreases n,
{
    if n == 0 {
        1
    } else {
        pow10((n - 1) as nat) * 10
    }
}

/// Digits with any thousands-separator commas removed.
pub open spec fn strip_commas(s: Seq<char>) -> Seq<char>
    decreases s.len(),
{
    if s.len() == 0 {
        Seq::empty()
    } else if s.last() == ',' {
        strip_commas(s.drop_last())
    } else {
        strip_commas(s.drop_last()).push(s.last())
    }
}

pub proof fn lemma_strip_commas_no_comma(s: Seq<char>)
    ensures
        forall|i: int| 0 <= i < strip_commas(s).len() ==> strip_commas(s)[i] != ',',
    decreases s.len(),
{
    if s.len() > 0 {
        lemma_strip_commas_no_comma(s.drop_last());
        if s.last() != ',' {
            let t = strip_commas(s.drop_last());
            assert forall|i: int| 0 <= i < strip_commas(s).len() implies strip_commas(s)[i]
                != ',' by {
                if i < t.len() {
                    assert(strip_commas(s)[i] == t[i]);
                } else {
                    assert(strip_commas(s)[i] == s.last());
                }
            }
        }
    }
}

/// Stripping separators twice is the same as stripping them once.
pub proof fn lemma_strip_commas_idempotent(s: Seq<char>)
    ensures
        strip_commas(strip_commas(s)) == strip_commas(s),
    decreases s.len(),
{
    lemma_strip_commas_no_comma(s);
    lemma_strip_of_comma_free(strip_commas(s));
}

pub proof fn lemma_strip_of_comma_free(s: Seq<char>)
    requires
        forall|i: int| 0 <= i < s.len() ==> s[i] != ',',
    ensures
        strip_commas(s) == s,
    decreases s.len(),
{
    if s.len() == 0 {
        assert(strip_commas(s) =~= s);
    } else {
        assert(forall|i: int| 0 <= i < s.drop_last().len() ==> s.drop_last()[i] != ',');
        lemma_strip_of_comma_free(s.drop_last());
        assert(strip_commas(s) =~= s);
    }
}

/// Only the decimal digits of a string, in order.
pub open spec fn filter_digits(s: Seq<char>) -> Seq<char>
    decreases s.len(),
{
    if s.len() == 0 {
        Seq::empty()
    } else if is_digit_char(s.last()) {
        filter_digits(s.drop_last()).push(s.last())
    } else {
        filter_digits(s.drop_last())
    }
}

/// An unsigned decimal number: nonempty, digits only, within `u64`.
pub open spec fn parse_u64_str(s: Seq<char>) -> Option<u64> {
    if s.len() > 0 && all_digits(s) && digits_val(s) <= u64::MAX {
        Some(digits_val(s) as u64)
    } else {
        None
    }
}

/// Index of the first occurrence of `c`, if any.
pub open spec fn first_idx(s: Seq<char>, c: char) -> Option<int>
    decreases s.len(),
{
    if s.len() == 0 {
        None
    } else if s[0] == c {
        Some(0)
    } else {
        match first_idx(s.skip(1), c) {
            Some(i) => Some(i + 1),
            None => None,
        }
    }
}

pub proof fn lemma_first_idx_at(s: Seq<char>, c: char, j: int)
    requires
        0 <= j < s.len(),
        s[j] == c,
        forall|k: int| 0 <= k < j ==> s[k] != c,
    ensures
        first_idx(s, c) == Some(j),
    decreases j,
{
    if j > 0 {
        let t = s.skip(1);
        assert(forall|k: int| 0 <= k < j - 1 ==> t[k] == s[k + 1] && t[k] != c);
        assert(t[j - 1] == c);
        lemma_first_idx_at(t, c, j - 1);
    }
}

pub proof fn lemma_first_idx_none(s: Seq<char>, c: char)
    requires
        forall|k: int| 0 <= k < s.len() ==> s[k] != c,
    ensures
        first_idx(s, c) is None,
    decreases s.len(),
{
    if s.len() > 0 {
        let t = s.skip(1);
        assert(forall|k: int| 0 <= k < t.len() ==> t[k] == s[k + 1] && t[k] != c);
        lemma_first_idx_none(t, c);
    }
}

/// A fixed-point price: optional sign, digits, at most four fraction digits,
/// read as a count of ten-thousandths.
pub open spec fn parse_price_str(s: Seq<char>) -> Option<i64> {
    let neg = s.len() > 0 && s[0] == '-';
    let b = if s.len() > 0 && (s[0] == '-' || s[0] == '+') {
        s.skip(1)
    } else {
        s
    };
    let ip = match first_idx(b, '.') {
        Some(i) => b.take(i),
        None => b,
    };
    let fp = match first_idx(b, '.') {
        Some(i) => b.skip(i + 1),
        None => Seq::<char>::empty(),
    };
    if all_digits(ip) && all_digits(fp) && fp.len() <= 4 && ip.len() + fp.len() >= 1 {
        let mag = digits_val(ip) * 10000 + digits_val(fp) * pow10((4 - fp.len()) as nat);
        if mag <= i64::MAX {
            if neg {
                Some((-mag) as i64)
            } else {
                Some(mag as i64)
            }
        } else {
            None
        }
    } else {
        None
    }
}

/// Longest prefix free of white space.
pub open spec fn take_word(s: Seq<char>) -> Seq<char>
    decreases s.len(),
{
    if s.len() == 0 || is_blank_char(s[0]) {
        Seq::empty()
    } else {
        seq![s[0]] + take_word(s.skip(1))
    }
}

/// First white-space-separated word, empty when there is none.
pub open spec fn first_word(s: Seq<char>) -> Seq<char>
    decreases s.len(),
{
    if s.len() == 0 {
        Seq::empty()
    } else if is_blank_char(s[0]) {
        first_word(s.skip(1))
    } else {
        take_word(s)
    }
}

/// Longest suffix free of white space.
pub open spec fn take_word_back(s: Seq<char>) -> Seq<char>
    decreases s.len(),
{
    if s.len() == 0 || is_blank_char(s.last()) {
        Seq::empty()
    } else {
        take_word_back(s.drop_last()) + seq![s.last()]
    }
}

/// Last white-space-separated word, empty when there is none.
pub open spec fn last_word(s: Seq<char>) -> Seq<char>
    decreases s.len(),
{
    if s.len() == 0 {
        Seq::empty()
    } else if is_blank_char(s.last()) {
        last_word(s.drop_last())
    } else {
        take_word_back(s)
    }
}

/// The string without leading white space.
pub open spec fn trim_front(s: Seq<char>) -> Seq<char>
    decreases s.len(),
{
    if s.len() > 0 && is_blank_char(s[0]) {
        trim_front(s.skip(1))
    } else {
        s
    }
}

/// The string without trailing white space.
pub open spec fn trim_back(s: Seq<char>) -> Seq<char>
    decreases s.len(),
{
    if s.len() > 0 && is_blank_char(s.last()) {
        trim_back(s.drop_last())
    } else {
        s
    }
}

/// The string without leading or trailing white space.
pub open spec fn trim(s: Seq<char>) -> Seq<char> {
    trim_back(trim_front(s))
}

pub open spec fn digit_char(d: int) -> char {
    if d == 0 { '0' } else if d == 1 { '1' } else if d == 2 { '2' } else if d == 3 { '3' }
    else if d == 4 { '4' } else if d == 5 { '5' } else if d == 6 { '6' } else if d == 7 { '7' }
    else if d == 8 { '8' } else { '9' }
}

/// Decimal digits of a number, no leading zero except for zero itself.
pub open spec fn u64_digits(v: nat) -> Seq<char>
    decreases v,
{
    if v < 10 {
        seq![digit_char(v as int)]
    } else {
        u64_digits(v / 10).push(digit_char((v % 10) as int))
    }
}

/// The digits, left-padded with zeros to at least `n` characters.
pub open spec fn zero_pad(s: Seq<char>, n: nat) -> Seq<char>
    decreases n - s.len(),
{
    if s.len() >= n {
        s
    } else {
        zero_pad(seq!['0'] + s, n)
    }
}

/// A character vector's deep view is its view.
pub proof fn lemma_chars_deep_view(v: Vec<char>)
    ensures
        v.deep_view() == v@,
{
    assert(v.deep_view() =~= v@);
}

// --- executable counterparts ---

/// The characters of a string, in order.
pub fn chars_of(s: &str) -> (r: Vec<char>)
    ensures
        r@ == s@,
{
    let n = s.unicode_len();
    let mut r: Vec<char> = Vec::new();
    let mut i: usize = 0;
    while i < n
        invariant
            i <= n,
            n == s@.len(),
            r@ =~= s@.subrange(0, i as int),
        decreases n - i,
    {
        r.push(s.get_char(i));
        i = i + 1;
        assert(r@ =~= s@.subrange(0, i as int));
    }
    assert(r@ =~= s@);
    r
}

/// Relies on `String::push`: appends exactly one character.
#[verifier::external_body]
pub fn push_char(s: &mut String, c: char)
    ensures
        final(s)@ == old(s)@.push(c),
{
    s.push(c);
}

/// A `String` with exactly the given characters.
pub fn string_of(v: &Vec<char>) -> (r: String)
    ensures
        r@ == v@,
{
    let mut r = String::new();
    let mut i: usize = 0;
    while i < v.len()
        invariant
            i <= v@.len(),
            r@ =~= v@.subrange(0, i as int),
        decreases v@.len() - i,
    {
        push_char(&mut r, v[i]);
        i = i + 1;
        assert(r@ =~= v@.subrange(0, i as int));
    }
    assert(r@ =~= v@);
    r
}

pub fn str_eq(a: &str, b: &str) -> (r: bool)
    ensures
        r == (a@ == b@),
{
    let n = a.unicode_len();
    if n != b.unicode_len() {
        return false;
    }
    let mut i: usize = 0;
    while i < n
        invariant
            i <= n,
            n == a@.len(),
            n == b@.len(),
            forall|k: int| 0 <= k < i ==> a@[k] == b@[k],
        decreases n - i,
    {
        if a.get_char(i) != b.get_char(i) {
            return false;
        }
        i = i + 1;
    }
    proof {
        assert(a@ =~= b@);
    }
    true
}

pub fn chars_eq(a: &Vec<char>, b: &Vec<char>) -> (r: bool)
    ensures
        r == (a@ == b@),
{
    if a.len() != b.len() {
        return false;
    }
    let mut i: usize = 0;
    while i < a.len()
        invariant
            i <= a@.len(),
            a@.len() == b@.len(),
            forall|k: int| 0 <= k < i ==> a@[k] == b@[k],
        decreases a@.len() - i,
    {
        if a[i] != b[i] {
            return false;
        }
        i = i + 1;
    }
    proof {
        assert(a@ =~= b@);
    }
    true
}

pub fn copy_chars(v: &Vec<char>) -> (r: Vec<char>)
    ensures
        r@ == v@,
{
    let mut r: Vec<char> = Vec::new();
    let mut i: usize = 0;
    while i < v.len()
        invariant
            i <= v@.len(),
            r@ =~= v@.subrange(0, i as int),
        decreases v@.len() - i,
    {
        r.push(v[i]);
        i = i + 1;
        assert(r@ =~= v@.subrange(0, i as int));
    }
    assert(r@ =~= v@);
    r
}

/// The characters from `from` (inclusive) to `to` (exclusive).
pub fn sub_chars(v: &Vec<char>, from: usize, to: usize) -> (r: Vec<char>)
    requires
        from <= to <= v@.len(),
    ensures
        r@ == v@.subrange(from as int, to as int),
{
    let mut r: Vec<char> = Vec::new();
    let mut i: usize = from;
    while i < to
        invariant
            from <= i <= to <= v@.len(),
            r@ =~= v@.subrange(from as int, i as int),
        decreases to - i,
    {
        r.push(v[i]);
        i = i + 1;
        assert(r@ =~= v@.subrange(from as int, i as int));
    }
    assert(r@ =~= v@.subrange(from as int, to as int));
    r
}

pub fn strip_commas_exec(v: &Vec<char>) -> (r: Vec<char>)
    ensures
        r@ == strip_commas(v@),
{
    let mut r: Vec<char> = Vec::new();
    let mut i: usize = 0;
    while i < v.len()
        invariant
            i <= v@.len(),
            r@ == strip_commas(v@.subrange(0, i as int)),
        decreases v@.len() - i,
    {
        proof {
            assert(v@.subrange(0, i + 1).drop_last() =~= v@.subrange(0, i as int));
            assert(v@.subrange(0, i + 1).last() == v@[i as int]);
        }
        if v[i] != ',' {
            r.push(v[i]);
        }
        i = i + 1;
    }
    proof {
        assert(v@.subrange(0, v@.len() as int) =~= v@);
    }
    r
}

pub fn filter_digits_exec(v: &Vec<char>) -> (r: Vec<char>)
    ensures
        r@ == filter_digits(v@),
{
    let mut r: Vec<char> = Vec::new();
    let mut i: usize = 0;
    while i < v.len()
        invariant
            i <= v@.len(),
            r@ == filter_digits(v@.subrange(0, i as int)),
        decreases v@.len() - i,
    {
        proof {
            assert(v@.subrange(0, i + 1).drop_last() =~= v@.subrange(0, i as int));
            assert(v@.subrange(0, i + 1).last() == v@[i as int]);
        }
        let c = v[i];
        if '0' <= c && c <= '9' {
            r.push(c);
        }
        i = i + 1;
    }
    proof {
        assert(v@.subrange(0, v@.len() as int) =~= v@);
    }
    r
}

pub fn parse_u64_chars(v: &Vec<char>) -> (r: Option<u64>)
    ensures
        r == parse_u64_str(v@),
{
    let n = v.len();
    if n == 0 {
        return None;
    }
    let mut val: u64 = 0;
    let mut i: usize = 0;
    while i < n
        invariant
            i <= n,
            n == v@.len(),
            all_digits(v@.subrange(0, i as int)),
            val == digits_val(v@.subrange(0, i as int)),
        decreases n - i,
    {
        let c = v[i];
        if !('0' <= c && c <= '9') {
            assert(!is_digit_char(v@[i as int]));
            return None;
        }
        let d: u64 = (c as u32 - 48) as u64;
        proof {
            assert(v@.subrange(0, i + 1).drop_last() =~= v@.subrange(0, i as int));
            assert(v@.subrange(0, i + 1).last() == v@[i as int]);
            assert(d == digit_val(v@[i as int]));
        }
        let next = match val.checked_mul(10) {
            Some(x) => x.checked_add(d),
            None => None,
        };
        match next {
            Some(x) => {
                val = x;
            },
            None => {
                proof {
                    let p = v@.subrange(0, i + 1);
                    assert(all_digits(p));
                    assert(digits_val(p) > u64::MAX);
                    if all_digits(v@) {
                        lemma_digits_val_prefix_le(v@, i + 1);
                        assert(v@.subrange(0, v@.len() as int) =~= v@);
                    }
                }
                return None;
            },
        }
        i = i + 1;
    }
    proof {
        assert(v@.subrange(0, n as int) =~= v@);
    }
    Some(val)
}

/// Index of the first occurrence of `c` in `v`, if any.
pub fn find_char(v: &Vec<char>, c: char) -> (r: Option<usize>)
    ensures
        match r {
            Some(i) => first_idx(v@, c) == Some(i as int) && i < v@.len(),
            None => first_idx(v@, c) is None,
        },
{
    let mut i: usize = 0;
    while i < v.len()
        invariant
            i <= v@.len(),
            forall|k: int| 0 <= k < i ==> v@[k] != c,
        decreases v@.len() - i,
    {
        if v[i] == c {
            proof {
                lemma_first_idx_at(v@, c, i as int);
            }
            return Some(i);
        }
        i = i + 1;
    }
    proof {
        lemma_first_idx_none(v@, c);
    }
    None
}

pub fn parse_price_chars(v: &Vec<char>) -> (r: Option<i64>)
    ensures
        r == parse_price_str(v@),
{
    let n = v.len();
    let signed = n > 0 && (v[0] == '-' || v[0] == '+');
    let neg = n > 0 && v[0] == '-';
    let b = if signed {
        sub_chars(v, 1, n)
    } else {
        copy_chars(v)
    };
    proof {
        if signed {
            assert(b@ =~= v@.skip(1));
        }
    }
    let (ip, fp) = match find_char(&b, '.') {
        Some(i) => {
            let ipart = sub_chars(&b, 0, i);
            let fpart = sub_chars(&b, i + 1, b.len());
            proof {
                assert(ipart@ =~= b@.take(first_idx(b@, '.').unwrap()));
                assert(fpart@ =~= b@.skip(first_idx(b@, '.').unwrap() + 1));
            }
            (ipart, fpart)
        },
        None => (copy_chars(&b), Vec::<char>::new()),
    };
    if fp.len() > 4 || ip.len() + fp.len() == 0 {
        return None;
    }
    // check both parts are digits
    if !all_digits_exec(&ip) || !all_digits_exec(&fp) {
        return None;
    }
    // integer part value
    let iv: u64 = if ip.len() == 0 {
        proof {
            assert(ip@ =~= Seq::<char>::empty());
        }
        0
    } else {
        match parse_u64_chars(&ip) {
            Some(x) => x,
            None => {
                proof {
                    // the integer part alone already exceeds u64, so the
                    // scaled magnitude exceeds i64
                    lemma_digits_val_nonneg(fp@);
                    lemma_digits_val_nonneg(ip@);
                    lemma_pow10_pos((4 - fp@.len()) as nat);
                }
                return None;
            },
        }
    };
    let fv: u64 = if fp.len() == 0 {
        proof {
            assert(fp@ =~= Seq::<char>::empty());
        }
        0
    } else {
        match parse_u64_chars(&fp) {
            Some(x) => x,
            None => {
                proof {
                    lemma_digits_val_bound(fp@);
                    lemma_pow10_le(fp@.len(), 4);
                    lemma_pow10_values();
                    lemma_digits_val_nonneg(fp@);
                }
                assert(false);
                return None;
            },
        }
    };
    let scale: u64 = pow10_small(4 - fp.len());
    proof {
        lemma_digits_val_nonneg(ip@);
        lemma_digits_val_nonneg(fp@);
        lemma_digits_val_bound(fp@);
        lemma_pow10_values();
        lemma_pow10_le(fp@.len(), 4);
        lemma_frac_scaled_bound(fp@);
        assert(iv == digits_val(ip@));
        assert(fv == digits_val(fp@));
    }
    let frac_scaled: u64 = fv * scale;
    proof {
        assert(frac_scaled == digits_val(fp@) * pow10((4 - fp@.len()) as nat));
    }
    let mag: u64 = match iv.checked_mul(10000) {
        Some(x) => match x.checked_add(frac_scaled) {
            Some(y) => y,
            None => {
                return None;
            },
        },
        None => {
            return None;
        },
    };
    proof {
        assert(mag == digits_val(ip@) * 10000 + digits_val(fp@) * pow10((4 - fp@.len()) as nat));
    }
    if mag > i64::MAX as u64 {
        return None;
    }
    let m = mag as i64;
    if neg {
        Some(-m)
    } else {
        Some(m)
    }
}

pub fn all_digits_exec(v: &Vec<char>) -> (r: bool)
    ensures
        r == all_digits(v@),
{
    let mut i: usize = 0;
    while i < v.len()
        invariant
            i <= v@.len(),
            forall|k: int| 0 <= k < i ==> is_digit_char(v@[k]),
        decreases v@.len() - i,
    {
        let c = v[i];
        if !('0' <= c && c <= '9') {
            return false;
        }
        i = i + 1;
    }
    true
}

pub proof fn lemma_pow10_pos(n: nat)
    ensures
        pow10(n) >= 1,
    decreases n,
{
    if n > 0 {
        lemma_pow10_pos((n - 1) as nat);
    }
}

pub proof fn lemma_pow10_le(a: nat, b: nat)
    requires
        a <= b,
    ensures
        pow10(a) <= pow10(b),
    decreases b,
{
    if a < b {
        lemma_pow10_le(a, (b - 1) as nat);
        lemma_pow10_pos((b - 1) as nat);
    }
}

/// A fraction of at most four digits, scaled to ten-thousandths, stays below
/// ten thousand.
pub proof fn lemma_frac_scaled_bound(fp: Seq<char>)
    requires
        all_digits(fp),
        fp.len() <= 4,
    ensures
        digits_val(fp) * pow10((4 - fp.len()) as nat) < 10000,
        digits_val(fp) * pow10((4 - fp.len()) as nat) >= 0,
{
    lemma_digits_val_bound(fp);
    lemma_digits_val_nonneg(fp);
    lemma_pow10_pos((4 - fp.len()) as nat);
    let k = fp.len();
    assert(pow10(k) * pow10((4 - k) as nat) == 10000) by {
        lemma_pow10_mul(k, (4 - k) as nat);
        lemma_pow10_values();
    }
    let d = digits_val(fp);
    let p = pow10((4 - k) as nat);
    assert(d <= pow10(k) - 1);
    assert(d * p <= (pow10(k) - 1) * p) by (nonlinear_arith)
        requires
            d <= pow10(k) - 1,
            p >= 1,
    ;
    assert((pow10(k) - 1) * p == pow10(k) * p - p) by (nonlinear_arith);
    assert(d * p >= 0) by (nonlinear_arith)
        requires
            d >= 0,
            p >= 1,
    ;
}

pub proof fn lemma_pow10_values()
    ensures
        pow10(0) == 1,
        pow10(1) == 10,
        pow10(2) == 100,
        pow10(3) == 1000,
        pow10(4) == 10000,
{
    assert(pow10(0) == 1);
    assert(pow10(1) == 10);
    assert(pow10(2) == 100);
    assert(pow10(3) == 1000);
    assert(pow10(4) == 10000);
}

pub proof fn lemma_pow10_mul(a: nat, b: nat)
    ensures
        pow10(a) * pow10(b) == pow10(a + b),
    decreases b,
{
    if b == 0 {
    } else {
        lemma_pow10_mul(a, (b - 1) as nat);
        assert(pow10(a) * pow10(b) == pow10(a) * (pow10((b - 1) as nat) * 10))
            by (nonlinear_arith)
            requires
                pow10(b) == pow10((b - 1) as nat) * 10,
        ;
        assert(pow10(a) * (pow10((b - 1) as nat) * 10) == (pow10(a) * pow10((b - 1) as nat)) * 10)
            by (nonlinear_arith);
        assert(pow10(a + b) == pow10((a + (b - 1) as nat) as nat) * 10);
    }
}

pub fn pow10_small(n: usize) -> (r: u64)
    requires
        n <= 4,
    ensures
        r == pow10(n as nat),
{
    proof {
        lemma_pow10_values();
    }
    if n == 0 {
        1
    } else if n == 1 {
        10
    } else if n == 2 {
        100
    } else if n == 3 {
        1000
    } else {
        10000
    }
}

pub fn is_all_blank_exec(v: &Vec<char>) -> (r: bool)
    ensures
        r == is_all_blank(v@),
{
    let mut i: usize = 0;
    while i < v.len()
        invariant
            i <= v@.len(),
            forall|k: int| 0 <= k < i ==> is_blank_char(v@[k]),
        decreases v@.len() - i,
    {
        if !blank_char(v[i]) {
            return false;
        }
        i = i + 1;
    }
    true
}

pub fn trim_exec(v: &Vec<char>) -> (r: Vec<char>)
    ensures
        r@ == trim(v@),
{
    let n = v.len();
    proof {
        assert(v@.skip(0) =~= v@);
    }
    let mut i: usize = 0;
    while i < n && blank_char(v[i])
        invariant
            i <= n,
            n == v@.len(),
            trim_front(v@) == trim_front(v@.skip(i as int)),
            forall|k: int| 0 <= k < i ==> is_blank_char(v@[k]),
        decreases n - i,
    {
        proof {
            assert(v@.skip(i as int).skip(1) =~= v@.skip(i + 1));
        }
        i = i + 1;
    }
    proof {
        assert(trim_front(v@) == v@.skip(i as int));
        assert(v@.skip(i as int) =~= v@.subrange(i as int, n as int));
    }
    let mut j: usize = n;
    while j > i && blank_char(v[j - 1])
        invariant
            i <= j <= n,
            n == v@.len(),
            trim_front(v@) == v@.skip(i as int),
            trim_back(v@.skip(i as int)) == trim_back(v@.subrange(i as int, j as int)),
        decreases j,
    {
        proof {
            let cur = v@.subrange(i as int, j as int);
            assert(cur.drop_last() =~= v@.subrange(i as int, j - 1));
            assert(cur.last() == v@[j - 1]);
        }
        j = j - 1;
    }
    proof {
        let cur = v@.subrange(i as int, j as int);
        if j > i {
            assert(!is_blank_char(cur.last()));
        }
        assert(trim_back(cur) == cur);
        assert(v@.skip(i as int) =~= v@.subrange(i as int, n as int));
    }
    sub_chars(v, i, j)
}

pub fn first_word_exec(v: &Vec<char>) -> (r: Vec<char>)
    ensures
        r@ == first_word(v@),
{
    let n = v.len();
    proof {
        assert(v@.skip(0) =~= v@);
    }
    let mut i: usize = 0;
    while i < n && blank_char(v[i])
        invariant
            i <= n,
            n == v@.len(),
            first_word(v@) == first_word(v@.skip(i as int)),
        decreases n - i,
    {
        proof {
            assert(v@.skip(i as int).skip(1) =~= v@.skip(i + 1));
        }
        i = i + 1;
    }
    let start = i;
    let mut r: Vec<char> = Vec::new();
    while i < n && !blank_char(v[i])
        invariant
            start <= i <= n,
            n == v@.len(),
            first_word(v@) == first_word(v@.skip(start as int)),
            take_word(v@.skip(start as int)) =~= r@ + take_word(v@.skip(i as int)),
            forall|k: int| start <= k < i ==> !is_blank_char(v@[k]),
        decreases n - i,
    {
        proof {
            assert(v@.skip(i as int).skip(1) =~= v@.skip(i + 1));
            assert(v@.skip(i as int)[0] == v@[i as int]);
        }
        r.push(v[i]);
        i = i + 1;
    }
    proof {
        let su = v@.skip(start as int);
        if start < n {
            assert(su[0] == v@[start as int]);
        }
        if i < n {
            assert(v@.skip(i as int)[0] == v@[i as int]);
            assert(take_word(v@.skip(i as int)) =~= Seq::<char>::empty());
        } else {
            assert(v@.skip(i as int) =~= Seq::<char>::empty());
        }
        assert(r@ + Seq::<char>::empty() =~= r@);
        if start == n {
            assert(su =~= Seq::<char>::empty());
            assert(first_word(su) =~= Seq::<char>::empty());
            assert(r@ =~= Seq::<char>::empty());
        } else {
            assert(!is_blank_char(su[0]));
            assert(first_word(su) == take_word(su));
        }
    }
    r
}

#[verifier::rlimit(60)]
pub fn last_word_exec(v: &Vec<char>) -> (r: Vec<char>)
    ensures
        r@ == last_word(v@),
{
    let n = v.len();
    proof {
        assert(v@.subrange(0, n as int) =~= v@);
    }
    let mut j: usize = n;
    while j > 0 && blank_char(v[j - 1])
        invariant
            j <= n,
            n == v@.len(),
            last_word(v@) == last_word(v@.subrange(0, j as int)),
        decreases j,
    {
        proof {
            let cur = v@.subrange(0, j as int);
            assert(cur.drop_last() =~= v@.subrange(0, j - 1));
            assert(cur.last() == v@[j - 1]);
        }
        j = j - 1;
    }
    let endw = j;
    let mut i: usize = j;
    while i > 0 && !blank_char(v[i - 1])
        invariant
            i <= endw <= n,
            n == v@.len(),
            last_word(v@) == last_word(v@.subrange(0, endw as int)),
            take_word_back(v@.subrange(0, endw as int)) =~= take_word_back(
                v@.subrange(0, i as int),
            ) + v@.subrange(i as int, endw as int),
            forall|k: int| i <= k < endw ==> !is_blank_char(v@[k]),
        decreases i,
    {
        proof {
            let cur = v@.subrange(0, i as int);
            assert(cur.drop_last() =~= v@.subrange(0, i - 1));
            assert(cur.last() == v@[i - 1]);
            let a = take_word_back(v@.subrange(0, i - 1));
            let b = seq![v@[i - 1]];
            let c = v@.subrange(i as int, endw as int);
            assert(take_word_back(cur) =~= a + b);
            assert((a + b) + c =~= a + v@.subrange(i - 1, endw as int));
        }
        i = i - 1;
    }
    proof {
        let full = v@.subrange(0, endw as int);
        let cur = v@.subrange(0, i as int);
        if i > 0 {
            assert(cur.last() == v@[i - 1]);
            assert(is_blank_char(cur.last()));
            assert(take_word_back(cur) =~= Seq::<char>::empty());
        } else {
            assert(cur =~= Seq::<char>::empty());
            assert(take_word_back(cur) =~= Seq::<char>::empty());
        }
        assert(take_word_back(full) =~= v@.subrange(i as int, endw as int));
        if endw > 0 {
            assert(full.last() == v@[endw - 1]);
            assert(!is_blank_char(full.last()));
            assert(last_word(full) == take_word_back(full));
        } else {
            assert(full =~= Seq::<char>::empty());
            assert(last_word(full) =~= Seq::<char>::empty());
            assert(v@.subrange(0, 0) =~= Seq::<char>::empty());
        }
    }
    sub_chars(v, i, endw)
}

pub fn digit_char_exec(d: u64) -> (r: char)
    requires
        d < 10,
    ensures
        r == digit_char(d as int),
{
    if d == 0 { '0' } else if d == 1 { '1' } else if d == 2 { '2' } else if d == 3 { '3' }
    else if d == 4 { '4' } else if d == 5 { '5' } else if d == 6 { '6' } else if d == 7 { '7' }
    else if d == 8 { '8' } else { '9' }
}

/// Decimal digits of `v`, most significant first.
pub fn dec_chars(v: u64) -> (r: Vec<char>)
    ensures
        r@ == u64_digits(v as nat),
    decreases v,
{
    if v < 10 {
        let mut r: Vec<char> = Vec::new();
        r.push(digit_char_exec(v));
        proof {
            assert(r@ =~= seq![digit_char(v as int)]);
        }
        r
    } else {
        let mut r = dec_chars(v / 10);
        r.push(digit_char_exec(v % 10));
        r
    }
}

pub open spec fn zeros(k: nat) -> Seq<char> {
    Seq::new(k, |i: int| '0')
}

/// Padding prepends exactly the missing zeros.
pub proof fn lemma_zero_pad_shape(s: Seq<char>, n: nat)
    ensures
        s.len() >= n ==> zero_pad(s, n) == s,
        s.len() < n ==> zero_pad(s, n) == zeros((n - s.len()) as nat) + s,
    decreases n - s.len(),
{
    if s.len() < n {
        let t = seq!['0'] + s;
        lemma_zero_pad_shape(t, n);
        if t.len() < n {
            assert(zeros((n - t.len()) as nat) + t =~= zeros((n - s.len()) as nat) + s);
        } else {
            assert(t =~= zeros((n - s.len()) as nat) + s);
        }
    }
}

/// The digits of `v`, zero-padded to at least `n` characters.
pub fn dec_chars_padded(v: u64, n: usize) -> (r: Vec<char>)
    ensures
        r@ == zero_pad(u64_digits(v as nat), n as nat),
{
    let digits = dec_chars(v);
    let mut r: Vec<char> = Vec::new();
    let pad = if n > digits.len() {
        n - digits.len()
    } else {
        0
    };
    let mut k: usize = 0;
    while k < pad
        invariant
            k <= pad,
            r@ =~= zeros(k as nat),
        decreases pad - k,
    {
        r.push('0');
        k = k + 1;
        proof {
            assert(r@ =~= zeros(k as nat));
        }
    }
    let mut i: usize = 0;
    while i < digits.len()
        invariant
            i <= digits@.len(),
            digits@ == u64_digits(v as nat),
            r@ =~= zeros(pad as nat) + digits@.subrange(0, i as int),
        decreases digits@.len() - i,
    {
        r.push(digits[i]);
        i = i + 1;
        proof {
            assert(r@ =~= zeros(pad as nat) + digits@.subrange(0, i as int));
        }
    }
    proof {
        lemma_zero_pad_shape(digits@, n as nat);
        assert(digits@.subrange(0, digits@.len() as int) =~= digits@);
        if digits@.len() >= n {
            assert(zeros(0) + digits@ =~= digits@);
        }
    }
    r
}

} // verus!

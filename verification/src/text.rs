//! Small verified string helpers shared by the gateway's modules:
//! prefix tests, equality, decimal rendering and joining.

use vstd::prelude::*;

verus! {

/// True when `pre` occurs at the very start of `s`.
pub open spec fn is_prefix_of(pre: Seq<char>, s: Seq<char>) -> bool {
    pre.len() <= s.len() && s.subrange(0, pre.len() as int) == pre
}

/// Character-for-character prefix test on string slices.
pub fn str_starts_with(s: &str, pre: &str) -> (r: bool)
    ensures
        r == is_prefix_of(pre@, s@),
{
    let pre_len = pre.unicode_len();
    let s_len = s.unicode_len();
    if pre_len > s_len {
        assert(!is_prefix_of(pre@, s@));
        return false;
    }
    let mut i: usize = 0;
    while i < pre_len
        invariant
            0 <= i <= pre_len,
            pre_len == pre@.len(),
            s_len == s@.len(),
            pre_len <= s_len,
            forall|j: int| 0 <= j < i ==> s@[j] == pre@[j],
        decreases pre_len - i,
    {
        if s.get_char(i) != pre.get_char(i) {
            assert(!is_prefix_of(pre@, s@)) by {
                assert(s@[i as int] != pre@[i as int]);
                assert(pre@.len() <= s@.len());
                if s@.subrange(0, pre@.len() as int) == pre@ {
                    assert(s@.subrange(0, pre@.len() as int)[i as int] == s@[i as int]);
                }
            }
            return false;
        }
        i += 1;
    }
    assert(s@.subrange(0, pre@.len() as int) =~= pre@);
    true
}

/// Equality of two string slices, decided character by character.
pub fn str_eq(a: &str, b: &str) -> (r: bool)
    ensures
        r == (a@ == b@),
{
    let a_len = a.unicode_len();
    let b_len = b.unicode_len();
    if a_len != b_len {
        return false;
    }
    let r = str_starts_with(a, b);
    proof {
        if r {
            assert(a@.subrange(0, b@.len() as int) =~= a@);
        } else if a@ == b@ {
            assert(a@.subrange(0, b@.len() as int) =~= b@);
        }
    }
    r
}

/// The characters of `s` from position `from` onward, as an owned string.
pub fn tail_from(s: &str, from: usize) -> (r: String)
    requires
        from <= s@.len(),
    ensures
        r@ == s@.subrange(from as int, s@.len() as int),
{
    let len = s.unicode_len();
    let t = s.substring_char(from, len);
    t.to_owned()
}

/// The characters of `s` before position `to`, as an owned string.
pub fn head_to(s: &str, to: usize) -> (r: String)
    requires
        to <= s@.len(),
    ensures
        r@ == s@.subrange(0, to as int),
{
    let t = s.substring_char(0, to);
    t.to_owned()
}

/// Whether every string in `v` differs from `s`.
pub fn vec_contains_str(v: &Vec<String>, s: &str) -> (r: bool)
    ensures
        r == exists|i: int| 0 <= i < v@.len() && v@[i]@ == s@,
{
    let mut i: usize = 0;
    while i < v.len()
        invariant
            0 <= i <= v@.len(),
            forall|j: int| 0 <= j < i ==> v@[j]@ != s@,
        decreases v@.len() - i,
    {
        if str_eq(v[i].as_str(), s) {
            assert(v@[i as int]@ == s@);
            return true;
        }
        i += 1;
    }
    false
}

/// Whether some entry of `v` is a prefix of `s`.
pub fn any_is_prefix_of(v: &Vec<String>, s: &str) -> (r: bool)
    ensures
        r == exists|i: int| 0 <= i < v@.len() && is_prefix_of(v@[i]@, s@),
{
    let mut i: usize = 0;
    while i < v.len()
        invariant
            0 <= i <= v@.len(),
            forall|j: int| 0 <= j < i ==> !is_prefix_of(v@[j]@, s@),
        decreases v@.len() - i,
    {
        if str_starts_with(s, v[i].as_str()) {
            assert(is_prefix_of(v@[i as int]@, s@));
            return true;
        }
        i += 1;
    }
    false
}

/// The decimal digit character for a value below ten.
pub open spec fn digit_char(d: nat) -> char {
    if d == 0 { '0' }
    else if d == 1 { '1' }
    else if d == 2 { '2' }
    else if d == 3 { '3' }
    else if d == 4 { '4' }
    else if d == 5 { '5' }
    else if d == 6 { '6' }
    else if d == 7 { '7' }
    else if d == 8 { '8' }
    else { '9' }
}

/// Decimal representation of a natural number, most significant digit first.
pub open spec fn dec_rep(n: nat) -> Seq<char>
    decreases n,
{
    if n < 10 {
        seq![digit_char(n)]
    } else {
        dec_rep(n / 10) + seq![digit_char(n % 10)]
    }
}

fn digit_str(d: u64) -> (r: &'static str)
    requires
        d < 10,
    ensures
        r@ =~= seq![digit_char(d as nat)],
{
    proof {
        reveal_strlit("0");
        reveal_strlit("1");
        reveal_strlit("2");
        reveal_strlit("3");
        reveal_strlit("4");
        reveal_strlit("5");
        reveal_strlit("6");
        reveal_strlit("7");
        reveal_strlit("8");
        reveal_strlit("9");
    }
    if d == 0 { "0" }
    else if d == 1 { "1" }
    else if d == 2 { "2" }
    else if d == 3 { "3" }
    else if d == 4 { "4" }
    else if d == 5 { "5" }
    else if d == 6 { "6" }
    else if d == 7 { "7" }
    else if d == 8 { "8" }
    else { "9" }
}

/// Renders `n` in decimal.
pub fn u64_to_string(n: u64) -> (s: String)
    ensures
        s@ == dec_rep(n as nat),
    decreases n,
{
    if n < 10 {
        let d = digit_str(n);
        let s = d.to_owned();
        assert(s@ =~= dec_rep(n as nat));
        s
    } else {
        assert(n / 10 < n && n % 10 < 10) by (nonlinear_arith)
            requires n >= 10;
        let mut s = u64_to_string(n / 10);
        let d = digit_str(n % 10);
        s.append(d);
        assert(s@ =~= dec_rep(n as nat));
        s
    }
}

/// Decimal representation of an integer, with a leading minus sign
/// when it is negative.
pub open spec fn dec_rep_int(n: int) -> Seq<char> {
    if n < 0 {
        seq!['-'] + dec_rep((-n) as nat)
    } else {
        dec_rep(n as nat)
    }
}

/// Renders `n` in decimal, with a minus sign when negative.
pub fn i64_to_string(n: i64) -> (s: String)
    ensures
        s@ == dec_rep_int(n as int),
{
    proof {
        reveal_strlit("-");
    }
    if n < 0 {
        // the magnitude of i64::MIN does not fit in an i64, so treat it apart
        let mag: u64 = if n == i64::MIN {
            9223372036854775808u64
        } else {
            (-n) as u64
        };
        assert(mag as int == -(n as int));
        let mut s: String = "-".to_owned();
        let rest = u64_to_string(mag);
        s.append(rest.as_str());
        assert(s@ =~= dec_rep_int(n as int));
        s
    } else {
        u64_to_string(n as u64)
    }
}

/// Whether `c` is a decimal digit.
pub open spec fn is_digit(c: char) -> bool {
    48 <= c as int <= 57
}

/// The numeric value of a digit character.
pub open spec fn digit_val(c: char) -> int {
    c as int - 48
}

/// Whether every character of `s` is a decimal digit.
pub open spec fn all_digits(s: Seq<char>) -> bool {
    forall|i: int| 0 <= i < s.len() ==> is_digit(#[trigger] s[i])
}

/// The value of a digit string, most significant digit first.
pub open spec fn dec_value(s: Seq<char>) -> int
    decreases s.len(),
{
    if s.len() == 0 {
        0
    } else {
        dec_value(s.drop_last()) * 10 + digit_val(s.last())
    }
}

/// Whether `s` is a decimal representation that fits in an `i64`: an
/// optional minus sign, then at least one digit, with the value in
/// range.
pub open spec fn is_i64_rep(s: Seq<char>) -> bool {
    if s.len() > 0 && s[0] == '-' {
        let digits = s.drop_first();
        digits.len() > 0 && all_digits(digits) && dec_value(digits) <= 0x8000000000000000
    } else {
        s.len() > 0 && all_digits(s) && dec_value(s) <= 0x7FFFFFFFFFFFFFFF
    }
}

/// The value `s` represents, assuming `is_i64_rep(s)`.
pub open spec fn i64_rep_value(s: Seq<char>) -> int {
    if s.len() > 0 && s[0] == '-' {
        -dec_value(s.drop_first())
    } else {
        dec_value(s)
    }
}

proof fn lemma_dec_value_nonneg(s: Seq<char>)
    requires
        all_digits(s),
    ensures
        dec_value(s) >= 0,
    decreases s.len(),
{
    if s.len() > 0 {
        assert(all_digits(s.drop_last())) by {
            assert(forall|i: int| 0 <= i < s.len() - 1 ==> s.drop_last()[i] == s[i]);
        }
        lemma_dec_value_nonneg(s.drop_last());
    }
}

proof fn lemma_dec_value_prefix_monotone(s: Seq<char>, i: int, j: int)
    requires
        all_digits(s),
        0 <= i <= j <= s.len(),
    ensures
        dec_value(s.subrange(0, i)) <= dec_value(s.subrange(0, j)),
    decreases j - i,
{
    if i < j {
        lemma_dec_value_prefix_monotone(s, i, j - 1);
        let a = s.subrange(0, j - 1);
        let b = s.subrange(0, j);
        assert(b.drop_last() =~= a);
        assert(all_digits(a)) by {
            assert(forall|k: int| 0 <= k < a.len() ==> a[k] == s[k]);
        }
        lemma_dec_value_nonneg(a);
        assert(is_digit(b.last()));
        assert(dec_value(b) == dec_value(a) * 10 + digit_val(b.last()));
        assert(dec_value(a) * 10 >= dec_value(a)) by (nonlinear_arith)
            requires dec_value(a) >= 0;
    }
}

fn parse_digits(s: &str, from: usize) -> (r: Option<u64>)
    requires
        from <= s@.len(),
    ensures
        ({
            let digits = s@.subrange(from as int, s@.len() as int);
            match r {
                Some(v) => digits.len() > 0 && all_digits(digits) && v == dec_value(digits) && v
                    <= 0x8000000000000000,
                None => digits.len() == 0 || !all_digits(digits) || dec_value(digits)
                    > 0x8000000000000000,
            }
        }),
{
    let ghost digits = s@.subrange(from as int, s@.len() as int);
    let len = s.unicode_len();
    if from == len {
        return None;
    }
    let mut acc: u64 = 0;
    let mut i: usize = from;
    while i < len
        invariant
            from <= i <= len,
            len == s@.len(),
            digits == s@.subrange(from as int, s@.len() as int),
            all_digits(digits.subrange(0, i - from)),
            acc == dec_value(digits.subrange(0, i - from)),
            acc <= 0x8000000000000000,
        decreases len - i,
    {
        let c = s.get_char(i);
        let u = c as u32;
        if u < 48 || u > 57 {
            assert(!all_digits(digits)) by {
                assert(digits[i - from] == s@[i as int]);
            }
            return None;
        }
        let d: u64 = (u - 48) as u64;
        proof {
            let pre = digits.subrange(0, i - from);
            let cur = digits.subrange(0, i + 1 - from);
            assert(cur.drop_last() =~= pre);
            assert(cur.last() == s@[i as int]);
        }
        if acc > 922337203685477580 || (acc == 922337203685477580 && d > 8) {
            // any further digits only grow the value, so it cannot fit
            proof {
                let cur = digits.subrange(0, i + 1 - from);
                assert(dec_value(cur) == acc * 10 + d);
                assert(dec_value(cur) > 0x8000000000000000);
                assert(all_digits(cur)) by {
                    assert(forall|k: int| 0 <= k < cur.len() ==> cur[k] == digits[k]);
                }
                if all_digits(digits) {
                    lemma_dec_value_prefix_monotone(digits, i + 1 - from, digits.len() as int);
                    assert(digits.subrange(0, digits.len() as int) =~= digits);
                }
            }
            return None;
        }
        acc = acc * 10 + d;
        i += 1;
    }
    proof {
        assert(digits.subrange(0, len - from) =~= digits);
    }
    Some(acc)
}

/// Relies on char::to_string: a string holding exactly the one
/// character.
#[verifier::external_body]
pub fn char_to_string(c: char) -> (r: String)
    ensures
        r@ == seq![c],
{
    c.to_string()
}

/// Whether `s` is a decimal representation that fits in a `u64`: at
/// least one digit, with the value in range.
pub open spec fn is_u64_rep(s: Seq<char>) -> bool {
    s.len() > 0 && all_digits(s) && dec_value(s) <= 0xFFFFFFFFFFFFFFFF
}

/// Parses `s` as a decimal `u64`.  Returns the value exactly when `s`
/// is such a representation and the value fits.
pub fn parse_u64(s: &str) -> (r: Option<u64>)
    ensures
        match r {
            Some(v) => is_u64_rep(s@) && v == dec_value(s@),
            None => !is_u64_rep(s@),
        },
{
    let len = s.unicode_len();
    if len == 0 {
        return None;
    }
    let mut acc: u64 = 0;
    let mut i: usize = 0;
    while i < len
        invariant
            0 <= i <= len,
            len == s@.len(),
            all_digits(s@.subrange(0, i as int)),
            acc == dec_value(s@.subrange(0, i as int)),
        decreases len - i,
    {
        let c = s.get_char(i);
        let u = c as u32;
        if u < 48 || u > 57 {
            assert(!all_digits(s@)) by {
                assert(s@[i as int] == c);
            }
            return None;
        }
        let d: u64 = (u - 48) as u64;
        proof {
            let pre = s@.subrange(0, i as int);
            let cur = s@.subrange(0, i + 1);
            assert(cur.drop_last() =~= pre);
            assert(cur.last() == s@[i as int]);
        }
        if acc > 1844674407370955161 || (acc == 1844674407370955161 && d > 5) {
            // any further digits only grow the value, so it cannot fit
            proof {
                let cur = s@.subrange(0, i + 1);
                assert(dec_value(cur) == acc * 10 + d);
                assert(dec_value(cur) > 0xFFFFFFFFFFFFFFFF);
                assert(all_digits(cur)) by {
                    assert(forall|k: int| 0 <= k < cur.len() ==> cur[k] == s@[k]);
                }
                if all_digits(s@) {
                    lemma_dec_value_prefix_monotone(s@, i + 1, s@.len() as int);
                    assert(s@.subrange(0, s@.len() as int) =~= s@);
                }
            }
            return None;
        }
        acc = acc * 10 + d;
        i += 1;
    }
    proof {
        assert(s@.subrange(0, len as int) =~= s@);
    }
    Some(acc)
}

/// Parses `s` as a decimal `i64`: an optional minus sign, then digits.
/// Returns the value exactly when `s` is such a representation and the
/// value fits.
pub fn parse_i64(s: &str) -> (r: Option<i64>)
    ensures
        match r {
            Some(v) => is_i64_rep(s@) && v == i64_rep_value(s@),
            None => !is_i64_rep(s@),
        },
{
    let len = s.unicode_len();
    if len == 0 {
        return None;
    }
    if s.get_char(0) == '-' {
        let ghost digits = s@.subrange(1, s@.len() as int);
        proof {
            assert(s@.drop_first() =~= digits);
        }
        match parse_digits(s, 1) {
            Some(v) => {
                if v == 9223372036854775808u64 {
                    Some(i64::MIN)
                } else {
                    Some(-(v as i64))
                }
            }
            None => None,
        }
    } else {
        match parse_digits(s, 0) {
            Some(v) => {
                proof {
                    assert(s@.subrange(0, s@.len() as int) =~= s@);
                }
                if v <= 9223372036854775807u64 {
                    Some(v as i64)
                } else {
                    None
                }
            }
            None => {
                proof {
                    assert(s@.subrange(0, s@.len() as int) =~= s@);
                }
                None
            }
        }
    }
}

/// The segments of `s` between occurrences of `sep`.  There is always
/// at least one segment; a trailing separator yields a final empty one.
pub open spec fn split_on(s: Seq<char>, sep: char) -> Seq<Seq<char>>
    decreases s.len(),
{
    if s.len() == 0 {
        seq![Seq::empty()]
    } else {
        let p = split_on(s.drop_last(), sep);
        if s.last() == sep {
            p.push(Seq::empty())
        } else {
            p.update(p.len() - 1, p.last().push(s.last()))
        }
    }
}

proof fn lemma_split_on_nonempty(s: Seq<char>, sep: char)
    ensures
        split_on(s, sep).len() >= 1,
    decreases s.len(),
{
    if s.len() > 0 {
        lemma_split_on_nonempty(s.drop_last(), sep);
    }
}

/// Splits `s` at every occurrence of `sep`.
pub fn split_string(s: &str, sep: char) -> (r: Vec<String>)
    ensures
        r@.map_values(|p: String| p@) == split_on(s@, sep),
        r@.len() >= 1,
{
    let mut segs: Vec<String> = Vec::new();
    segs.push(String::new());
    let len = s.unicode_len();
    let mut i: usize = 0;
    while i < len
        invariant
            0 <= i <= len,
            len == s@.len(),
            segs@.len() >= 1,
            segs@.map_values(|p: String| p@) == split_on(s@.subrange(0, i as int), sep),
        decreases len - i,
    {
        let ghost pre = s@.subrange(0, i as int);
        let ghost cur = s@.subrange(0, i + 1);
        proof {
            assert(cur.drop_last() =~= pre);
            assert(cur.last() == s@[i as int]);
            lemma_split_on_nonempty(pre, sep);
        }
        let c = s.get_char(i);
        if c == sep {
            segs.push(String::new());
            proof {
                assert(segs@.map_values(|p: String| p@) =~= split_on(cur, sep));
            }
        } else {
            let ghost old_segs = segs@;
            let last_idx = segs.len() - 1;
            let piece = s.substring_char(i, i + 1);
            segs[last_idx].append(piece);
            proof {
                let views = segs@.map_values(|p: String| p@);
                let old_views = old_segs.map_values(|p: String| p@);
                assert(piece@ =~= seq![s@[i as int]]);
                assert(segs@[last_idx as int]@ =~= old_segs[last_idx as int]@.push(s@[i as int]));
                assert(views =~= old_views.update(
                    old_views.len() - 1,
                    old_views.last().push(s@[i as int]),
                ));
                assert(views =~= split_on(cur, sep));
            }
        }
        i += 1;
    }
    proof {
        assert(s@.subrange(0, len as int) =~= s@);
    }
    segs
}

/// `s` with leading and trailing spaces and tabs removed.
pub open spec fn spec_trimmed(s: Seq<char>) -> Seq<char>
    decreases s.len(),
{
    if s.len() > 0 && (s.first() == ' ' || s.first() == '\t') {
        spec_trimmed(s.drop_first())
    } else if s.len() > 0 && (s.last() == ' ' || s.last() == '\t') {
        spec_trimmed(s.drop_last())
    } else {
        s
    }
}

/// Removes leading and trailing spaces and tabs.
pub fn trim_spaces(s: &str) -> (r: String)
    ensures
        r@ == spec_trimmed(s@),
    decreases s@.len(),
{
    let len = s.unicode_len();
    if len > 0 {
        let first = s.get_char(0);
        if first == ' ' || first == '\t' {
            let rest = s.substring_char(1, len);
            proof {
                assert(rest@ =~= s@.drop_first());
            }
            return trim_spaces(rest);
        }
        let last = s.get_char(len - 1);
        if last == ' ' || last == '\t' {
            let rest = s.substring_char(0, len - 1);
            proof {
                assert(rest@ =~= s@.drop_last());
            }
            return trim_spaces(rest);
        }
    }
    s.to_owned()
}

/// The strings of `parts` concatenated with `sep` between consecutive parts.
pub open spec fn joined_with(parts: Seq<Seq<char>>, sep: Seq<char>) -> Seq<char>
    decreases parts.len(),
{
    if parts.len() == 0 {
        Seq::empty()
    } else if parts.len() == 1 {
        parts[0]
    } else {
        parts[0] + sep + joined_with(parts.drop_first(), sep)
    }
}

/// Joins `parts` with `sep` between consecutive entries.
pub fn join_strings(parts: &Vec<String>, sep: &str) -> (r: String)
    ensures
        r@ == joined_with(parts@.map_values(|p: String| p@), sep@),
{
    let ghost views = parts@.map_values(|p: String| p@);
    let mut r = String::new();
    let mut i: usize = 0;
    while i < parts.len()
        invariant
            0 <= i <= parts@.len(),
            views == parts@.map_values(|p: String| p@),
            r@ == joined_with(views.subrange(0, i as int), sep@),
        decreases parts@.len() - i,
    {
        if i > 0 {
            r.append(sep);
        }
        r.append(parts[i].as_str());
        proof {
            let pre = views.subrange(0, i as int);
            let now = views.subrange(0, i + 1 as int);
            lemma_joined_with_push(pre, views[i as int], sep@);
            assert(pre.push(views[i as int]) =~= now);
        }
        i += 1;
    }
    assert(views.subrange(0, parts@.len() as int) =~= views);
    r
}

proof fn lemma_joined_with_push(parts: Seq<Seq<char>>, last: Seq<char>, sep: Seq<char>)
    ensures
        parts.len() == 0 ==> joined_with(parts.push(last), sep) == last,
        parts.len() > 0 ==> joined_with(parts.push(last), sep)
            == joined_with(parts, sep) + sep + last,
    decreases parts.len(),
{
    if parts.len() == 0 {
        assert(parts.push(last) =~= seq![last]);
        assert(joined_with(seq![last], sep) == last);
    } else if parts.len() == 1 {
        let p = parts.push(last);
        assert(p.drop_first() =~= seq![last]);
        assert(joined_with(p, sep) == p[0] + sep + joined_with(p.drop_first(), sep));
        assert(p[0] == parts[0]);
        assert(joined_with(parts, sep) == parts[0]);
    } else {
        let p = parts.push(last);
        assert(p.drop_first() =~= parts.drop_first().push(last));
        lemma_joined_with_push(parts.drop_first(), last, sep);
        assert(joined_with(p, sep) == p[0] + sep + joined_with(parts.drop_first().push(last), sep));
        assert(joined_with(parts.drop_first().push(last), sep)
            == joined_with(parts.drop_first(), sep) + sep + last);
        assert(p[0] == parts[0]);
        assert(joined_with(parts, sep) == parts[0] + sep + joined_with(parts.drop_first(), sep));
        assert(parts[0] + sep + (joined_with(parts.drop_first(), sep) + sep + last)
            =~= (parts[0] + sep + joined_with(parts.drop_first(), sep)) + sep + last);
    }
}

} // verus!

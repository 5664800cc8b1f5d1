//! Verified text building blocks: substring matching, folder-name
//! sanitization, digit parsing and printing, and path assembly.  Contracts
//! are stated over `Seq<char>` views.

use vstd::prelude::*;
use vstd::string::*;

verus! {

/// Relies on `String::push`: appends one character at the end.
#[verifier::external_body]
pub(crate) fn push_char(s: &mut String, c: char)
    ensures
        final(s)@ == old(s)@.push(c),
{
    s.push(c);
}

/// The pattern occurs in `s` at position `i`.
pub open spec fn occurs_at(s: Seq<char>, pat: Seq<char>, i: int) -> bool {
    &&& 0 <= i
    &&& i + pat.len() <= s.len()
    &&& s.subrange(i, i + pat.len()) == pat
}

/// Some position of `s` carries the pattern.
pub open spec fn contains_seq(s: Seq<char>, pat: Seq<char>) -> bool {
    exists|i: int| occurs_at(s, pat, i)
}

/// Whether `pat` stands at position `i` of `s`.
pub fn match_at(s: &str, pat: &str, i: usize) -> (r: bool)
    requires
        i + pat@.len() <= s@.len(),
    ensures
        r == occurs_at(s@, pat@, i as int),
{
    let sl = s.unicode_len();
    let n = pat.unicode_len();
    let mut k: usize = 0;
    while k < n
        invariant
            k <= n,
            n == pat@.len(),
            sl == s@.len(),
            i + n <= sl,
            forall|m: int| 0 <= m < k ==> s@[i + m] == pat@[m],
        decreases n - k,
    {
        if s.get_char(i + k) != pat.get_char(k) {
            assert(!occurs_at(s@, pat@, i as int)) by {
                if occurs_at(s@, pat@, i as int) {
                    assert(s@.subrange(i as int, i + n)[k as int] == pat@[k as int]);
                }
            }
            return false;
        }
        k = k + 1;
    }
    assert(s@.subrange(i as int, i + n) =~= pat@);
    true
}

/// Whether the pattern occurs anywhere in `s`.
pub fn contains_str(s: &str, pat: &str) -> (r: bool)
    ensures
        r == contains_seq(s@, pat@),
{
    let sl = s.unicode_len();
    let pl = pat.unicode_len();
    if pl > sl {
        assert(!contains_seq(s@, pat@)) by {
            if contains_seq(s@, pat@) {
                let i = choose|i: int| occurs_at(s@, pat@, i);
            }
        }
        return false;
    }
    if pl == 0 {
        proof {
            assert(s@.subrange(0, 0) =~= pat@);
            assert(occurs_at(s@, pat@, 0));
        }
        return true;
    }
    let mut i: usize = 0;
    while i <= sl - pl
        invariant
            1 <= pl <= sl,
            sl == s@.len(),
            pl == pat@.len(),
            forall|j: int| 0 <= j < i ==> !occurs_at(s@, pat@, j),
        decreases sl - i,
    {
        if match_at(s, pat, i) {
            return true;
        }
        i = i + 1;
    }
    assert(!contains_seq(s@, pat@)) by {
        if contains_seq(s@, pat@) {
            let j = choose|j: int| occurs_at(s@, pat@, j);
            assert(j + pl <= sl);
            assert(j < i);
        }
    }
    false
}

/// Whether `s` begins with `pat`.
pub fn starts_with_str(s: &str, pat: &str) -> (r: bool)
    ensures
        r == occurs_at(s@, pat@, 0),
{
    let sl = s.unicode_len();
    let pl = pat.unicode_len();
    if pl > sl {
        return false;
    }
    match_at(s, pat, 0)
}

/// Whether two texts read the same.
pub fn str_eq(a: &str, b: &str) -> (r: bool)
    ensures
        r == (a@ == b@),
{
    let al = a.unicode_len();
    let bl = b.unicode_len();
    if al != bl {
        return false;
    }
    let same = match_at(a, b, 0);
    proof {
        assert(a@.subrange(0, bl as int) =~= a@);
    }
    same
}

/// `suffix`, repeated any number of times, removed from the end of `s`.
pub open spec fn trim_end_all(s: Seq<char>, suffix: Seq<char>) -> Seq<char>
    decreases s.len(),
{
    if suffix.len() > 0 && s.len() >= suffix.len() && s.subrange(
        s.len() - suffix.len(),
        s.len() as int,
    ) == suffix {
        trim_end_all(s.take(s.len() - suffix.len()), suffix)
    } else {
        s
    }
}

/// Removes every trailing repetition of `suffix` from `s`.
pub fn trim_end_matches_str(s: &str, suffix: &str) -> (r: String)
    requires
        suffix@.len() >= 1,
    ensures
        r@ == trim_end_all(s@, suffix@),
{
    let sl = s.unicode_len();
    let fl = suffix.unicode_len();
    let mut end: usize = sl;
    proof {
        assert(s@.take(sl as int) =~= s@);
    }
    while end >= fl && match_at(s, suffix, end - fl)
        invariant
            end <= sl,
            sl == s@.len(),
            fl == suffix@.len(),
            fl >= 1,
            trim_end_all(s@, suffix@) == trim_end_all(s@.take(end as int), suffix@),
        decreases end,
    {
        proof {
            let t = s@.take(end as int);
            assert(t.subrange(t.len() - fl, t.len() as int) =~= s@.subrange(
                end - fl,
                end as int,
            ));
            assert(t.take(t.len() - fl) =~= s@.take(end - fl));
        }
        end = end - fl;
    }
    proof {
        let t = s@.take(end as int);
        if end >= fl {
            assert(t.subrange(t.len() - fl, t.len() as int) =~= s@.subrange(
                end - fl,
                end as int,
            ));
        }
        assert(trim_end_all(t, suffix@) == t);
    }
    s.substring_char(0, end).to_owned()
}

/// `i` is the last slash of `s`.
pub open spec fn last_slash_at(s: Seq<char>, i: int) -> bool {
    &&& 0 <= i < s.len()
    &&& s[i] == '/'
    &&& forall|j: int| i < j < s.len() ==> s[j] != '/'
}

/// The text after the last slash, when nonempty: the capture of the
/// trailing-segment rule.  `None` when `s` has no slash or ends with one.
pub fn last_path_segment(s: &str) -> (r: Option<String>)
    ensures
        forall|i: int|
            last_slash_at(s@, i) && i + 1 < s@.len() ==> r is Some && r.unwrap()@ == s@.subrange(
                i + 1,
                s@.len() as int,
            ),
        (forall|i: int| !(last_slash_at(s@, i) && i + 1 < s@.len())) ==> r is None,
{
    let sl = s.unicode_len();
    let mut k: usize = sl;
    while k > 0
        invariant
            k <= sl,
            sl == s@.len(),
            forall|j: int| k <= j < sl ==> s@[j] != '/',
        decreases k,
    {
        if s.get_char(k - 1) == '/' {
            proof {
                assert forall|i: int| last_slash_at(s@, i) implies i == k - 1 by {
                    if i < k - 1 {
                        assert(s@[k - 1] == '/');
                    }
                }
            }
            if k < sl {
                let seg = s.substring_char(k, sl).to_owned();
                proof {
                    assert(last_slash_at(s@, k - 1));
                }
                return Some(seg);
            } else {
                return None;
            }
        }
        k = k - 1;
    }
    assert(forall|i: int| !last_slash_at(s@, i));
    None
}

/// `i` is the first slash of `s`.
pub open spec fn first_slash_at(s: Seq<char>, i: int) -> bool {
    &&& 0 <= i < s.len()
    &&& s[i] == '/'
    &&& forall|j: int| 0 <= j < i ==> s[j] != '/'
}

/// The text before the first slash — the whole text when it has none.
pub fn first_path_segment(s: &str) -> (r: String)
    ensures
        forall|i: int| first_slash_at(s@, i) ==> r@ == s@.take(i),
        (forall|i: int| !first_slash_at(s@, i)) ==> r@ == s@,
{
    let sl = s.unicode_len();
    let mut k: usize = 0;
    while k < sl
        invariant
            k <= sl,
            sl == s@.len(),
            forall|j: int| 0 <= j < k ==> s@[j] != '/',
        decreases sl - k,
    {
        if s.get_char(k) == '/' {
            proof {
                assert(first_slash_at(s@, k as int));
            }
            return s.substring_char(0, k).to_owned();
        }
        k = k + 1;
    }
    s.to_owned()
}

/// `p` is where the last path component of `s` begins: just after the last
/// slash, or the start when `s` has none.
pub open spec fn name_start_at(s: Seq<char>, p: int) -> bool {
    &&& 0 <= p <= s.len()
    &&& forall|j: int| p <= j < s.len() ==> s[j] != '/'
    &&& (p == 0 || s[p - 1] == '/')
}

/// The last dot of the last path component stands at `d`, and not at the
/// component's first position.
pub open spec fn ext_dot_at(s: Seq<char>, p: int, d: int) -> bool {
    &&& name_start_at(s, p)
    &&& p < d < s.len()
    &&& s[d] == '.'
    &&& forall|j: int| d < j < s.len() ==> s[j] != '.'
}

proof fn lemma_name_start_exists(s: Seq<char>)
    ensures
        exists|p: int| name_start_at(s, p),
    decreases s.len(),
{
    if s.len() == 0 {
        assert(name_start_at(s, 0));
    } else if s.last() == '/' {
        assert(name_start_at(s, s.len() as int));
    } else {
        let t = s.drop_last();
        lemma_name_start_exists(t);
        let p = choose|p: int| name_start_at(t, p);
        assert forall|j: int| p <= j < s.len() implies s[j] != '/' by {
            if j < s.len() - 1 {
                assert(t[j] == s[j]);
                assert(t[j] != '/');
            }
        }
        assert(p > 0 ==> s[p - 1] == t[p - 1]);
        assert(name_start_at(s, p));
    }
}

/// The extension of the last path component of `s`: the text after its
/// last dot, provided that dot is not the component's first character —
/// empty otherwise.
pub fn file_extension_of(s: &str) -> (r: String)
    ensures
        forall|p: int, d: int| ext_dot_at(s@, p, d) ==> r@ == s@.subrange(d + 1, s@.len() as int),
        (forall|p: int, d: int| !ext_dot_at(s@, p, d)) ==> r@.len() == 0,
{
    let sl = s.unicode_len();
    let mut k: usize = sl;
    while k > 0
        invariant
            k <= sl,
            sl == s@.len(),
            forall|j: int| k <= j < sl ==> s@[j] != '.' && s@[j] != '/',
        decreases k,
    {
        let c = s.get_char(k - 1);
        if c == '/' {
            proof {
                assert forall|p: int, d: int| !ext_dot_at(s@, p, d) by {
                    if ext_dot_at(s@, p, d) {
                        assert(s@[d] == '.');
                        assert(d < k - 1);
                        assert(s@[k - 1] == '/');
                    }
                }
            }
            let r = String::new();
            return r;
        }
        if c == '.' {
            if k - 1 == 0 || s.get_char(k - 2) == '/' {
                proof {
                    assert forall|p: int, d: int| !ext_dot_at(s@, p, d) by {
                        if ext_dot_at(s@, p, d) {
                            assert(d == k - 1);
                            assert(p < d);
                            assert(s@[d - 1] != '/');
                        }
                    }
                }
                let r = String::new();
                return r;
            }
            proof {
                assert forall|p: int, d: int| ext_dot_at(s@, p, d) implies d == k - 1 by {}
                lemma_name_start_exists(s@);
                let p = choose|p: int| name_start_at(s@, p);
                assert(p < k - 1) by {
                    if p == k - 1 {
                        assert(s@[k - 2] == '/');
                    }
                    if p > k - 1 {
                        if p == s@.len() {
                            assert(s@[p - 1] != '/');
                        } else {
                            assert(s@[p - 1] != '/');
                        }
                    }
                }
                assert(ext_dot_at(s@, p, k - 1));
            }
            return s.substring_char(k, sl).to_owned();
        }
        k = k - 1;
    }
    proof {
        assert forall|p: int, d: int| !ext_dot_at(s@, p, d) by {
            if ext_dot_at(s@, p, d) {
                assert(s@[d] == '.');
            }
        }
    }
    let r = String::new();
    r
}

/// A decimal digit.
pub open spec fn is_digit_char(c: char) -> bool {
    48 <= c as u32 <= 57
}

pub open spec fn all_digits(s: Seq<char>) -> bool {
    forall|j: int| 0 <= j < s.len() ==> is_digit_char(s[j])
}

/// The value of one digit character; a non-digit counts zero, though every
/// user guards with `all_digits` first.
pub open spec fn digit_val(c: char) -> nat {
    if is_digit_char(c) {
        (c as u32 - 48) as nat
    } else {
        0
    }
}

/// The number a digit string denotes.
pub open spec fn digits_val(s: Seq<char>) -> nat
    decreases s.len(),
{
    if s.len() == 0 {
        0
    } else {
        digits_val(s.drop_last()) * 10 + digit_val(s.last())
    }
}

/// What parsing `s` as an unsigned 64-bit decimal yields: the value when
/// `s` is a nonempty digit string in range, nothing otherwise.
pub open spec fn parsed_u64(s: Seq<char>) -> Option<u64> {
    if s.len() >= 1 && all_digits(s) && digits_val(s) <= u64::MAX {
        Some(digits_val(s) as u64)
    } else {
        None
    }
}

proof fn lemma_digits_val_grows(s: Seq<char>, k: int)
    requires
        0 <= k <= s.len(),
    ensures
        digits_val(s.take(k)) <= digits_val(s),
    decreases s.len() - k,
{
    if k < s.len() {
        lemma_digits_val_grows(s, k + 1);
        assert(s.take(k + 1).drop_last() =~= s.take(k));
        assert(digits_val(s.take(k + 1)) == digits_val(s.take(k)) * 10 + digit_val(
            s.take(k + 1).last(),
        ));
        assert(digits_val(s.take(k)) <= digits_val(s.take(k)) * 10);
    } else {
        assert(s.take(k) =~= s);
    }
}

/// Parses a nonempty all-digit string into a `u64`; anything else — empty,
/// a non-digit, or a value above `u64::MAX` — is rejected.
pub fn parse_u64_digits(s: &str) -> (r: Option<u64>)
    ensures
        r == parsed_u64(s@),
{
    let sl = s.unicode_len();
    if sl == 0 {
        return None;
    }
    let mut acc: u64 = 0;
    let mut i: usize = 0;
    while i < sl
        invariant
            i <= sl,
            sl == s@.len(),
            sl >= 1,
            all_digits(s@.take(i as int)),
            acc == digits_val(s@.take(i as int)),
        decreases sl - i,
    {
        let c = s.get_char(i);
        let cv = c as u32;
        if cv < 48 || cv > 57 {
            assert(!all_digits(s@)) by {
                assert(s@[i as int] == c);
            }
            return None;
        }
        let d: u64 = (cv - 48) as u64;
        proof {
            assert(s@.take(i + 1).drop_last() =~= s@.take(i as int));
            assert(s@.take(i + 1).last() == c);
            assert(digits_val(s@.take(i + 1)) == digits_val(s@.take(i as int)) * 10 + digit_val(
                c,
            ));
        }
        let next = match acc.checked_mul(10) {
            Some(m) => m.checked_add(d),
            None => None,
        };
        match next {
            Some(v) => {
                acc = v;
            },
            None => {
                // the prefix already exceeds the range, so the whole string does
                proof {
                    assert(digits_val(s@.take(i + 1)) > u64::MAX);
                    lemma_digits_val_grows(s@, i + 1);
                }
                return None;
            },
        }
        i = i + 1;
    }
    proof {
        assert(s@.take(sl as int) =~= s@);
    }
    Some(acc)
}

/// The decimal digit `d` as a character.
pub open spec fn digit_char(d: nat) -> char {
    if d == 0 {
        '0'
    } else if d == 1 {
        '1'
    } else if d == 2 {
        '2'
    } else if d == 3 {
        '3'
    } else if d == 4 {
        '4'
    } else if d == 5 {
        '5'
    } else if d == 6 {
        '6'
    } else if d == 7 {
        '7'
    } else if d == 8 {
        '8'
    } else {
        '9'
    }
}

/// The decimal digit `d` as a character.
pub fn digit_to_char(d: u64) -> (c: char)
    requires
        d < 10,
    ensures
        c == digit_char(d as nat),
{
    if d == 0 {
        '0'
    } else if d == 1 {
        '1'
    } else if d == 2 {
        '2'
    } else if d == 3 {
        '3'
    } else if d == 4 {
        '4'
    } else if d == 5 {
        '5'
    } else if d == 6 {
        '6'
    } else if d == 7 {
        '7'
    } else if d == 8 {
        '8'
    } else {
        '9'
    }
}

/// The decimal spelling of `n`, most significant digit first.
pub open spec fn decimal_of(n: nat) -> Seq<char>
    decreases n,
{
    if n < 10 {
        seq![digit_char(n)]
    } else {
        decimal_of(n / 10).push(digit_char(n % 10))
    }
}

/// Prints `n` in decimal.
pub fn u64_to_decimal(n: u64) -> (r: String)
    ensures
        r@ == decimal_of(n as nat),
{
    let mut digits: Vec<char> = Vec::new();
    let mut m: u64 = n;
    proof {
        assert(digits@.reverse() =~= Seq::<char>::empty());
        assert(decimal_of(n as nat) + Seq::<char>::empty() =~= decimal_of(n as nat));
    }
    loop
        invariant
            m > 0 ==> decimal_of(n as nat) == decimal_of(m as nat) + digits@.reverse(),
            m == 0 ==> decimal_of(n as nat) == if digits@.len() > 0 {
                digits@.reverse()
            } else {
                seq![digit_char(0)]
            },
        ensures
            decimal_of(n as nat) == if digits@.len() > 0 {
                digits@.reverse()
            } else {
                seq![digit_char(0)]
            },
        decreases m,
    {
        if m == 0 {
            break ;
        }
        let d: u64 = m % 10;
        let c: char = digit_to_char(d);
        proof {
            let rev0 = digits@.reverse();
            assert(digits@.push(c).reverse() =~= seq![c] + rev0);
            if m >= 10 {
                assert(decimal_of(m as nat) == decimal_of((m as nat) / 10).push(digit_char(
                    (m as nat) % 10,
                )));
                assert(decimal_of((m as nat) / 10).push(c) + rev0 =~= decimal_of((m as nat) / 10)
                    + (seq![c] + rev0));
            } else {
                assert(decimal_of(m as nat) =~= seq![c]);
            }
        }
        digits.push(c);
        m = m / 10;
    }
    let mut r = String::new();
    if digits.len() == 0 {
        push_char(&mut r, '0');
        assert(r@ =~= seq![digit_char(0)]);
        return r;
    }
    let total = digits.len();
    let mut t: usize = 0;
    while t < total
        invariant
            t <= total,
            total == digits@.len(),
            r@.len() == t,
            forall|k: int| 0 <= k < t ==> r@[k] == digits@[total - 1 - k],
        decreases total - t,
    {
        let c = digits[total - 1 - t];
        push_char(&mut r, c);
        t = t + 1;
    }
    proof {
        assert(r@ =~= digits@.reverse());
    }
    r
}

/// The separator-joined path `base/name`.
pub fn path_join(base: &str, name: &str) -> (r: String)
    ensures
        r@ == base@.push('/') + name@,
{
    proof {
        reveal_strlit("/");
    }
    let mut r = base.to_owned();
    r.append("/");
    r.append(name);
    proof {
        assert(r@ =~= base@.push('/') + name@);
    }
    r
}

/// The slash-to-underscore substitution applied to course codes before
/// they become folder names.
pub open spec fn slash_to_underscore(c: char) -> char {
    if c == '/' {
        '_'
    } else {
        c
    }
}

/// Every slash replaced by an underscore.
pub fn replace_slashes(s: &str) -> (r: String)
    ensures
        r@.len() == s@.len(),
        forall|k: int| 0 <= k < s@.len() ==> r@[k] == slash_to_underscore(s@[k]),
{
    let sl = s.unicode_len();
    let mut r = String::new();
    let mut i: usize = 0;
    while i < sl
        invariant
            i <= sl,
            sl == s@.len(),
            r@.len() == i,
            forall|k: int| 0 <= k < i ==> r@[k] == slash_to_underscore(s@[k]),
        decreases sl - i,
    {
        let c = s.get_char(i);
        if c == '/' {
            push_char(&mut r, '_');
        } else {
            push_char(&mut r, c);
        }
        i = i + 1;
    }
    r
}

} // verus!

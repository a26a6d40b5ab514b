use vstd::prelude::*;

verus! {

/// The characters with the Unicode `White_Space` property, which is what
/// `char::is_whitespace` and `str::trim` go by.
pub open spec fn is_space(c: char) -> bool {
    let u = c as u32;
    ||| 0x09 <= u <= 0x0d
    ||| u == 0x20
    ||| u == 0x85
    ||| u == 0xa0
    ||| u == 0x1680
    ||| 0x2000 <= u <= 0x200a
    ||| u == 0x2028
    ||| u == 0x2029
    ||| u == 0x202f
    ||| u == 0x205f
    ||| u == 0x3000
}

/// `s` without its leading white space.
pub open spec fn trim_start(s: Seq<char>) -> Seq<char>
    decreases s.len(),
{
    if s.len() > 0 && is_space(s[0]) {
        trim_start(s.drop_first())
    } else {
        s
    }
}

/// `s` without its trailing white space.
pub open spec fn trim_end(s: Seq<char>) -> Seq<char>
    decreases s.len(),
{
    if s.len() > 0 && is_space(s.last()) {
        trim_end(s.drop_last())
    } else {
        s
    }
}

/// `s` without white space at either end.
pub open spec fn trimmed(s: Seq<char>) -> Seq<char> {
    trim_end(trim_start(s))
}

/// `s` without the copies of `c` at its end.
pub open spec fn trim_end_char(s: Seq<char>, c: char) -> Seq<char>
    decreases s.len(),
{
    if s.len() > 0 && s.last() == c {
        trim_end_char(s.drop_last(), c)
    } else {
        s
    }
}

pub open spec fn has_prefix(s: Seq<char>, p: Seq<char>) -> bool {
    p.len() <= s.len() && s.subrange(0, p.len() as int) == p
}

pub open spec fn has_suffix(s: Seq<char>, p: Seq<char>) -> bool {
    p.len() <= s.len() && s.subrange(s.len() - p.len(), s.len() as int) == p
}

/// Index of the last `c` in `s`, or -1 where `s` holds none.
pub open spec fn last_index(s: Seq<char>, c: char) -> int
    decreases s.len(),
{
    if s.len() == 0 {
        -1
    } else if s.last() == c {
        s.len() - 1
    } else {
        last_index(s.drop_last(), c)
    }
}

/// `last_index` is -1, or the index of a `c` after which no `c` follows.
pub proof fn lemma_last_index(s: Seq<char>, c: char)
    ensures
        -1 <= last_index(s, c) < s.len(),
        last_index(s, c) >= 0 ==> s[last_index(s, c)] == c,
        forall|j: int| last_index(s, c) < j < s.len() ==> s[j] != c,
    decreases s.len(),
{
    if s.len() > 0 && s.last() != c {
        lemma_last_index(s.drop_last(), c);
        assert forall|j: int| last_index(s, c) < j < s.len() implies s[j] != c by {
            if j < s.len() - 1 {
                assert(s[j] == s.drop_last()[j]);
            }
        }
    }
}

/// The last `c` of `a + b` is that of `a` where `b` holds no `c`.
pub proof fn lemma_last_index_skips(a: Seq<char>, b: Seq<char>, c: char)
    requires
        forall|i: int| 0 <= i < b.len() ==> b[i] != c,
    ensures
        last_index(a + b, c) == last_index(a, c),
    decreases b.len(),
{
    if b.len() > 0 {
        assert((a + b).drop_last() =~= a + b.drop_last());
        assert((a + b).last() == b.last());
        lemma_last_index_skips(a, b.drop_last(), c);
    } else {
        assert(a + b =~= a);
    }
}

/// A string that differs from `p` at index `i` does not begin with `p`.
pub proof fn lemma_not_prefix(d: Seq<char>, p: Seq<char>, i: int)
    requires
        0 <= i < p.len(),
        i < d.len(),
        d[i] != p[i],
    ensures
        !has_prefix(d, p),
        d != p,
{
    if has_prefix(d, p) {
        assert(d.subrange(0, p.len() as int)[i] == d[i]);
    }
}

pub open spec fn is_digit(c: char) -> bool {
    48 <= (c as u32) <= 57
}

pub open spec fn digit_value(c: char) -> nat {
    ((c as u32) - 48) as nat
}

pub open spec fn digit_char(d: nat) -> char {
    ((d + 48) as u8) as char
}

pub open spec fn all_digits(s: Seq<char>) -> bool {
    forall|i: int| 0 <= i < s.len() ==> is_digit(#[trigger] s[i])
}

/// The number that a string of decimal digits writes.
pub open spec fn digits_value(s: Seq<char>) -> nat
    decreases s.len(),
{
    if s.len() == 0 {
        0
    } else {
        digits_value(s.drop_last()) * 10 + digit_value(s.last())
    }
}

/// The decimal notation of `n`, as `Display` writes it.
pub open spec fn decimal(n: nat) -> Seq<char>
    decreases n,
{
    if n < 10 {
        seq![digit_char(n)]
    } else {
        decimal(n / 10).push(digit_char(n % 10))
    }
}

/// What `str::parse` gives for an unsigned integer type whose largest value
/// is `max`: an optional `+`, then one or more decimal digits, and a value
/// that fits.
pub open spec fn parse_unsigned(s: Seq<char>, max: nat) -> Option<nat> {
    let body = if s.len() > 0 && s[0] == '+' { s.drop_first() } else { s };
    if body.len() > 0 && all_digits(body) && digits_value(body) <= max {
        Some(digits_value(body))
    } else {
        None
    }
}

/// What `str::parse::<i64>` gives: an optional sign, then one or more
/// decimal digits, and a value in the range of `i64`.
pub open spec fn parse_i64_spec(s: Seq<char>) -> Option<int> {
    if s.len() > 0 && s[0] == '-' {
        let body = s.drop_first();
        if body.len() > 0 && all_digits(body) && digits_value(body) <= 0x8000_0000_0000_0000 {
            Some(-(digits_value(body) as int))
        } else {
            None
        }
    } else {
        match parse_unsigned(s, 0x7fff_ffff_ffff_ffff) {
            Some(v) => Some(v as int),
            None => None,
        }
    }
}

/// The lower-case form of a string, as `str::to_lowercase` computes it from
/// the Unicode tables of the standard library.
pub uninterp spec fn lowercase(s: Seq<char>) -> Seq<char>;

/// Calls `str::to_lowercase`; its result is named `lowercase` of the input.
#[verifier::external_body]
pub(crate) fn to_lowercase(s: &str) -> (r: String)
    ensures
        r@ == lowercase(s@),
{
    s.to_lowercase()
}

/// Calls `String::push`, which appends one character.
#[verifier::external_body]
pub(crate) fn push_char(s: &mut String, c: char)
    ensures
        final(s)@ == old(s)@.push(c),
{
    s.push(c)
}

pub fn is_space_char(c: char) -> (r: bool)
    ensures
        r == is_space(c),
{
    let u = c as u32;
    (0x09 <= u && u <= 0x0d) || u == 0x20 || u == 0x85 || u == 0xa0 || u == 0x1680 || (0x2000
        <= u && u <= 0x200a) || u == 0x2028 || u == 0x2029 || u == 0x202f || u == 0x205f || u
        == 0x3000
}

/// `s` with the white space at both ends removed, as `str::trim` does.
pub fn trim(s: &str) -> (r: String)
    ensures
        r@ == trimmed(s@),
{
    let n = s.unicode_len();
    let mut i: usize = 0;
    assert(s@.subrange(0, n as int) =~= s@);
    while i < n && is_space_char(s.get_char(i))
        invariant
            i <= n,
            n == s@.len(),
            trim_start(s@) == trim_start(s@.subrange(i as int, n as int)),
        decreases n - i,
    {
        assert(s@.subrange(i + 1, n as int) =~= s@.subrange(i as int, n as int).drop_first());
        i = i + 1;
    }
    assert(trim_start(s@) == s@.subrange(i as int, n as int));
    let mut j: usize = n;
    while j > i && is_space_char(s.get_char(j - 1))
        invariant
            i <= j <= n,
            n == s@.len(),
            trim_end(s@.subrange(i as int, n as int)) == trim_end(s@.subrange(i as int, j as int)),
        decreases j,
    {
        assert(s@.subrange(i as int, j - 1) =~= s@.subrange(i as int, j as int).drop_last());
        j = j - 1;
    }
    String::from_str(s.substring_char(i, j))
}

/// Whether `s` begins with `p`.
pub fn starts_with(s: &str, p: &str) -> (r: bool)
    ensures
        r == has_prefix(s@, p@),
{
    let n = s.unicode_len();
    let m = p.unicode_len();
    if m > n {
        return false;
    }
    let mut k: usize = 0;
    while k < m
        invariant
            k <= m <= n,
            n == s@.len(),
            m == p@.len(),
            forall|t: int| 0 <= t < k ==> s@[t] == p@[t],
        decreases m - k,
    {
        if s.get_char(k) != p.get_char(k) {
            return false;
        }
        k = k + 1;
    }
    assert(s@.subrange(0, m as int) =~= p@);
    true
}

/// Whether `s` ends with `p`.
pub fn ends_with(s: &str, p: &str) -> (r: bool)
    ensures
        r == has_suffix(s@, p@),
{
    let n = s.unicode_len();
    let m = p.unicode_len();
    if m > n {
        return false;
    }
    let mut k: usize = 0;
    while k < m
        invariant
            k <= m <= n,
            n == s@.len(),
            m == p@.len(),
            forall|t: int| 0 <= t < k ==> s@[n - m + t] == p@[t],
        decreases m - k,
    {
        if s.get_char(n - m + k) != p.get_char(k) {
            return false;
        }
        k = k + 1;
    }
    assert(s@.subrange(n - m, n as int) =~= p@);
    true
}

/// `s` without the prefix `p`, where `s` begins with it.
pub fn strip_prefix<'a>(s: &'a str, p: &str) -> (r: Option<&'a str>)
    ensures
        r is Some <==> has_prefix(s@, p@),
        r matches Some(rest) ==> rest@ == s@.subrange(p@.len() as int, s@.len() as int),
{
    if starts_with(s, p) {
        let n = s.unicode_len();
        let m = p.unicode_len();
        Some(s.substring_char(m, n))
    } else {
        None
    }
}

/// Index of the last `c` in `s`, as `str::rfind` finds it, counted in
/// characters.
pub fn last_index_of(s: &str, c: char) -> (r: Option<usize>)
    ensures
        r is None <==> last_index(s@, c) == -1,
        r matches Some(i) ==> i == last_index(s@, c) && i < s@.len() && s@[i as int] == c,
{
    let n = s.unicode_len();
    let mut j: usize = n;
    assert(s@.subrange(0, n as int) =~= s@);
    while j > 0 && s.get_char(j - 1) != c
        invariant
            j <= n,
            n == s@.len(),
            last_index(s@, c) == last_index(s@.subrange(0, j as int), c),
        decreases j,
    {
        assert(s@.subrange(0, j - 1) =~= s@.subrange(0, j as int).drop_last());
        j = j - 1;
    }
    proof {
        lemma_last_index(s@, c);
    }
    if j == 0 {
        assert(s@.subrange(0, 0) =~= Seq::<char>::empty());
        None
    } else {
        Some(j - 1)
    }
}

/// Whether `a` and `b` hold the same characters.
pub fn same_text(a: &str, b: &str) -> (r: bool)
    ensures
        r == (a@ == b@),
{
    if a.unicode_len() != b.unicode_len() {
        return false;
    }
    let r = starts_with(a, b);
    assert(a@ =~= a@.subrange(0, b@.len() as int));
    r
}

/// `s` without the copies of `c` at its end, as `str::trim_end_matches`
/// with a character does.
pub fn trim_end_matching(s: &str, c: char) -> (r: &str)
    ensures
        r@ == trim_end_char(s@, c),
{
    let n = s.unicode_len();
    let mut j: usize = n;
    assert(s@.subrange(0, n as int) =~= s@);
    while j > 0 && s.get_char(j - 1) == c
        invariant
            j <= n,
            n == s@.len(),
            trim_end_char(s@, c) == trim_end_char(s@.subrange(0, j as int), c),
        decreases j,
    {
        assert(s@.subrange(0, j - 1) =~= s@.subrange(0, j as int).drop_last());
        j = j - 1;
    }
    s.substring_char(0, j)
}

/// Every prefix of a string of digits writes a number no larger than the
/// whole string does.
pub proof fn lemma_digits_prefix_le(s: Seq<char>, k: int)
    requires
        0 <= k <= s.len(),
    ensures
        digits_value(s.subrange(0, k)) <= digits_value(s),
    decreases s.len(),
{
    if k < s.len() {
        assert(s.drop_last().subrange(0, k) =~= s.subrange(0, k));
        lemma_digits_prefix_le(s.drop_last(), k);
    } else {
        assert(s.subrange(0, k) =~= s);
    }
}

/// The value of the digits `s[from..]`, where they are all digits, there is
/// at least one, and the value is at most `limit`.
pub fn parse_digits(s: &str, from: usize, limit: u64) -> (r: Option<u64>)
    requires
        from <= s@.len(),
    ensures
        ({
            let body = s@.subrange(from as int, s@.len() as int);
            &&& r is Some <==> (body.len() > 0 && all_digits(body) && digits_value(body) <= limit)
            &&& r matches Some(v) ==> v == digits_value(body)
        }),
{
    let n = s.unicode_len();
    if from == n {
        return None;
    }
    let ghost body = s@.subrange(from as int, n as int);
    let mut acc: u64 = 0;
    let mut i: usize = from;
    while i < n
        invariant
            from <= i <= n,
            n == s@.len(),
            body == s@.subrange(from as int, n as int),
            all_digits(body.subrange(0, i - from)),
            acc == digits_value(body.subrange(0, i - from)),
            acc <= limit,
        decreases n - i,
    {
        let c = s.get_char(i);
        let u = c as u32;
        let ghost pre = body.subrange(0, i - from);
        let ghost next = body.subrange(0, i + 1 - from);
        assert(next.drop_last() =~= pre);
        assert(next.last() == c);
        if u < 48 || u > 57 {
            assert(!is_digit(body[i - from]));
            return None;
        }
        assert(all_digits(next));
        let d = (u - 48) as u64;
        assert(digits_value(next) == acc * 10 + d);
        let grown = match acc.checked_mul(10) {
            Some(t) => t.checked_add(d),
            None => None,
        };
        match grown {
            Some(v) => {
                if v > limit {
                    proof {
                        if all_digits(body) {
                            lemma_digits_prefix_le(body, i + 1 - from);
                        }
                    }
                    return None;
                }
                acc = v;
            },
            None => {
                proof {
                    if all_digits(body) {
                        lemma_digits_prefix_le(body, i + 1 - from);
                    }
                }
                return None;
            },
        }
        i = i + 1;
    }
    assert(body.subrange(0, n - from) =~= body);
    Some(acc)
}

/// The decimal notation of a number is a non-empty string of digits that
/// writes that number.
pub proof fn lemma_decimal_digits(n: nat)
    ensures
        decimal(n).len() > 0,
        all_digits(decimal(n)),
        digits_value(decimal(n)) == n,
    decreases n,
{
    if n < 10 {
        assert(digit_value(digit_char(n)) == n);
        let d = decimal(n);
        assert(d.drop_last() =~= Seq::<char>::empty());
        assert(digits_value(d.drop_last()) == 0);
        assert(digits_value(d) == digits_value(d.drop_last()) * 10 + digit_value(d.last()));
    } else {
        lemma_decimal_digits(n / 10);
        let d = decimal(n);
        assert(d.drop_last() =~= decimal(n / 10));
        assert(digit_value(digit_char(n % 10)) == n % 10);
        assert(d.last() == digit_char(n % 10));
        assert(digits_value(d) == digits_value(d.drop_last()) * 10 + digit_value(d.last()));
        assert(n == (n / 10) * 10 + n % 10);
        assert(all_digits(d)) by {
            assert forall|i: int| 0 <= i < d.len() implies is_digit(#[trigger] d[i]) by {
                if i < d.len() - 1 {
                    assert(d[i] == decimal(n / 10)[i]);
                }
            }
        }
    }
}

/// Reading back the decimal notation of a number that fits gives the
/// number: what the page buttons write, the page handlers read.
pub proof fn lemma_parse_decimal(n: nat, max: nat)
    requires
        n <= max,
    ensures
        parse_unsigned(decimal(n), max) == Some(n),
{
    lemma_decimal_digits(n);
    assert(is_digit(decimal(n)[0]));
}

/// `str::parse` for an unsigned type whose largest value is `limit`.
pub fn parse_unsigned_text(s: &str, limit: u64) -> (r: Option<u64>)
    ensures
        r is Some <==> parse_unsigned(s@, limit as nat) is Some,
        r matches Some(v) ==> parse_unsigned(s@, limit as nat) == Some(v as nat),
{
    let n = s.unicode_len();
    if n > 0 && s.get_char(0) == '+' {
        assert(s@.subrange(1, n as int) =~= s@.drop_first());
        parse_digits(s, 1, limit)
    } else {
        assert(s@.subrange(0, n as int) =~= s@);
        parse_digits(s, 0, limit)
    }
}

/// `str::parse::<u16>`.
pub fn parse_u16(s: &str) -> (r: Option<u16>)
    ensures
        r is Some <==> parse_unsigned(s@, 0xffff) is Some,
        r matches Some(v) ==> parse_unsigned(s@, 0xffff) == Some(v as nat),
{
    match parse_unsigned_text(s, 0xffff) {
        Some(v) => Some(v as u16),
        None => None,
    }
}

/// `str::parse::<u64>`.
pub fn parse_u64(s: &str) -> (r: Option<u64>)
    ensures
        r is Some <==> parse_unsigned(s@, 0xffff_ffff_ffff_ffff) is Some,
        r matches Some(v) ==> parse_unsigned(s@, 0xffff_ffff_ffff_ffff) == Some(v as nat),
{
    parse_unsigned_text(s, 0xffff_ffff_ffff_ffff)
}

/// `str::parse::<usize>`.
pub fn parse_usize(s: &str) -> (r: Option<usize>)
    ensures
        r is Some <==> parse_unsigned(s@, usize::MAX as nat) is Some,
        r matches Some(v) ==> parse_unsigned(s@, usize::MAX as nat) == Some(v as nat),
{
    match parse_unsigned_text(s, usize::MAX as u64) {
        Some(v) => Some(v as usize),
        None => None,
    }
}

/// `str::parse::<i64>`.
pub fn parse_i64(s: &str) -> (r: Option<i64>)
    ensures
        r is Some <==> parse_i64_spec(s@) is Some,
        r matches Some(v) ==> parse_i64_spec(s@) == Some(v as int),
{
    let n = s.unicode_len();
    if n > 0 && s.get_char(0) == '-' {
        assert(s@.subrange(1, n as int) =~= s@.drop_first());
        match parse_digits(s, 1, 0x8000_0000_0000_0000) {
            Some(m) => {
                if m == 0x8000_0000_0000_0000 {
                    Some(i64::MIN)
                } else {
                    Some(-(m as i64))
                }
            },
            None => None,
        }
    } else {
        match parse_unsigned_text(s, 0x7fff_ffff_ffff_ffff) {
            Some(v) => Some(v as i64),
            None => None,
        }
    }
}

/// The decimal notation of `n`, as `format!("{}", n)` writes it.
pub fn decimal_text(n: u64) -> (r: String)
    ensures
        r@ == decimal(n as nat),
    decreases n,
{
    if n < 10 {
        let mut s = String::new();
        push_char(&mut s, ((n as u8) + 48) as char);
        assert(s@ =~= seq![digit_char(n as nat)]);
        s
    } else {
        let mut s = decimal_text(n / 10);
        push_char(&mut s, (((n % 10) as u8) + 48) as char);
        s
    }
}

} // verus!

use vstd::prelude::*;

verus! {

pub open spec fn is_digit(c: char) -> bool {
    '0' <= c && c <= '9'
}

pub open spec fn digit_value(c: char) -> int {
    c as int - '0' as int
}

/// The decimal number written by a string of digits.
pub open spec fn decimal(s: Seq<char>) -> int
    decreases s.len(),
{
    if s.len() == 0 {
        0
    } else {
        decimal(s.drop_last()) * 10 + digit_value(s.last())
    }
}

pub open spec fn all_digits(s: Seq<char>) -> bool {
    forall|i: int| 0 <= i < s.len() ==> is_digit(#[trigger] s[i])
}

/// A clock reading: one or more groups of digits separated by single colons
/// (`s`, `m:s`, `h:m:s`, ...).
pub open spec fn is_clock(s: Seq<char>) -> bool {
    &&& s.len() > 0
    &&& is_digit(s[0])
    &&& is_digit(s.last())
    &&& forall|i: int| 0 <= i < s.len() ==> is_digit(#[trigger] s[i]) || s[i] == ':'
    &&& forall|i: int| 0 <= i < s.len() - 1 && #[trigger] s[i] == ':' ==> s[i + 1] != ':'
}

/// Reading a clock left to right in base sixty: the seconds of the groups
/// before the last colon, and the value of the group after it.
pub open spec fn clock_reading(s: Seq<char>) -> (int, int)
    decreases s.len(),
{
    if s.len() == 0 {
        (0, 0)
    } else {
        let (t, f) = clock_reading(s.drop_last());
        if s.last() == ':' {
            ((t + f) * 60, 0)
        } else {
            (t, f * 10 + digit_value(s.last()))
        }
    }
}

/// The number of seconds that a clock reading stands for.
pub open spec fn clock_seconds(s: Seq<char>) -> int {
    clock_reading(s).0 + clock_reading(s).1
}

/// A fraction of a second: one to three digits.
pub open spec fn is_fraction(s: Seq<char>) -> bool {
    1 <= s.len() <= 3 && all_digits(s)
}

/// The milliseconds that the digits after the decimal point stand for.
pub open spec fn fraction_ms(s: Seq<char>) -> int {
    if s.len() == 1 {
        decimal(s) * 100
    } else if s.len() == 2 {
        decimal(s) * 10
    } else {
        decimal(s)
    }
}

pub open spec fn has_dot(s: Seq<char>) -> bool {
    exists|k: int| 0 <= k < s.len() && s[k] == '.'
}

/// The milliseconds written by a timestamp `clock` or `clock.fraction`,
/// or `None` where the text is not of that form.
pub open spec fn timestamp_ms(s: Seq<char>) -> Option<int> {
    if has_dot(s) {
        let k = choose|k: int| 0 <= k < s.len() && s[k] == '.';
        if is_clock(s.take(k)) && is_fraction(s.skip(k + 1)) {
            Some(clock_seconds(s.take(k)) * 1000 + fraction_ms(s.skip(k + 1)))
        } else {
            None
        }
    } else if is_clock(s) {
        Some(clock_seconds(s) * 1000)
    } else {
        None
    }
}

/// A timestamp's milliseconds where they fit in a `u64`.
pub open spec fn timestamp_value(s: Seq<char>) -> Option<u64> {
    match timestamp_ms(s) {
        Some(v) => if v <= u64::MAX {
            Some(v as u64)
        } else {
            None
        },
        None => None,
    }
}

proof fn lemma_reading_grows(s: Seq<char>, i: int, j: int)
    requires
        0 <= i <= j <= s.len(),
        forall|n: int| 0 <= n < j ==> is_digit(#[trigger] s[n]) || s[n] == ':',
    ensures
        clock_reading(s.take(j)).0 >= 0,
        clock_reading(s.take(j)).1 >= 0,
        clock_seconds(s.take(i)) <= clock_seconds(s.take(j)),
    decreases j,
{
    if j > 0 {
        assert(s.take(j).drop_last() =~= s.take(j - 1));
        if i < j {
            lemma_reading_grows(s, i, j - 1);
        } else {
            lemma_reading_grows(s, j - 1, j - 1);
        }
        let (t, f) = clock_reading(s.take(j - 1));
        assert(s.take(j).last() == s[j - 1]);
        if s[j - 1] != ':' {
            assert(digit_value(s[j - 1]) >= 0);
            assert(f * 10 >= f) by (nonlinear_arith)
                requires f >= 0;
        } else {
            assert((t + f) * 60 >= t + f) by (nonlinear_arith)
                requires t + f >= 0;
        }
    } else {
        assert(s.take(0) =~= Seq::<char>::empty());
    }
}

proof fn lemma_decimal_nonneg(s: Seq<char>)
    requires
        all_digits(s),
    ensures
        decimal(s) >= 0,
    decreases s.len(),
{
    if s.len() > 0 {
        assert(is_digit(s[s.len() - 1]));
        lemma_decimal_nonneg(s.drop_last());
    }
}

fn is_digit_char(c: char) -> (r: bool)
    ensures
        r == is_digit(c),
{
    '0' <= c && c <= '9'
}

/// The seconds of the clock reading in the first `k` characters of `s`,
/// where it is one and they fit in a `u64`.
fn read_clock(s: &str, k: usize) -> (r: Option<u64>)
    requires
        k <= s@.len(),
    ensures
        r is Some == (is_clock(s@.take(k as int)) && clock_seconds(s@.take(k as int)) <= u64::MAX),
        r is Some ==> r.unwrap() as int == clock_seconds(s@.take(k as int)),
{
    let ghost c = s@.take(k as int);
    if k == 0 {
        return None;
    }
    let mut t: u64 = 0;
    let mut f: u64 = 0;
    let mut i: usize = 0;
    while i < k
        invariant
            i <= k <= s@.len(),
            c == s@.take(k as int),
            c.take(i as int) =~= s@.take(i as int),
            clock_reading(c.take(i as int)) == (t as int, f as int),
            forall|n: int| 0 <= n < i ==> is_digit(#[trigger] c[n]) || c[n] == ':',
            forall|n: int| 0 <= n < i - 1 && #[trigger] c[n] == ':' ==> c[n + 1] != ':',
            i > 0 ==> is_digit(c[0]),
        decreases k - i,
    {
        let ch = s.get_char(i);
        assert(c.take(i + 1).drop_last() =~= c.take(i as int));
        assert(c.take(i + 1).last() == ch);
        if is_digit_char(ch) {
            let d = (ch as u32 - '0' as u32) as u64;
            if f > (u64::MAX - d) / 10 {
                proof {
                    assert(digit_value(ch) == d);
                    assert(clock_reading(c.take(i + 1)) == (t as int, f * 10 + d));
                    assert(f * 10 + d > u64::MAX);
                    if forall|n: int| 0 <= n < k ==> is_digit(#[trigger] c[n]) || c[n] == ':' {
                        lemma_reading_grows(c, i + 1, k as int);
                        assert(c.take(k as int) =~= c);
                    }
                }
                return None;
            }
            f = f * 10 + d;
        } else if ch == ':' {
            if i == 0 || s.get_char(i - 1) == ':' {
                return None;
            }
            if t > u64::MAX - f || t + f > u64::MAX / 60 {
                proof {
                    assert(clock_reading(c.take(i + 1)) == ((t + f) * 60, 0int));
                    assert((t + f) * 60 > u64::MAX);
                    if forall|n: int| 0 <= n < k ==> is_digit(#[trigger] c[n]) || c[n] == ':' {
                        lemma_reading_grows(c, i + 1, k as int);
                        assert(c.take(k as int) =~= c);
                    }
                }
                return None;
            }
            t = (t + f) * 60;
            f = 0;
        } else {
            return None;
        }
        i = i + 1;
        assert(c.take(i as int) =~= s@.take(i as int));
    }
    assert(c.take(k as int) =~= c);
    if !is_digit_char(s.get_char(k - 1)) {
        return None;
    }
    if t > u64::MAX - f {
        return None;
    }
    Some(t + f)
}

/// The milliseconds written by the digits of `s` from position `from` on,
/// where they form a fraction of one to three digits.
fn read_fraction(s: &str, from: usize) -> (r: Option<u64>)
    requires
        from <= s@.len(),
    ensures
        r is Some == is_fraction(s@.skip(from as int)),
        r is Some ==> r.unwrap() as int == fraction_ms(s@.skip(from as int)),
{
    let ghost g = s@.skip(from as int);
    let n = s.unicode_len();
    if n - from < 1 || n - from > 3 {
        return None;
    }
    let mut v: u64 = 0;
    let mut i: usize = from;
    while i < n
        invariant
            from <= i <= n == s@.len(),
            n - from <= 3,
            g == s@.skip(from as int),
            all_digits(g.take(i - from)),
            decimal(g.take(i - from)) == v,
            v < 1000,
            i - from == 0 ==> v == 0,
            i - from <= 1 ==> v < 10,
            i - from <= 2 ==> v < 100,
        decreases n - i,
    {
        let ch = s.get_char(i);
        if !is_digit_char(ch) {
            assert(g[i - from] == ch);
            return None;
        }
        assert(g.take(i + 1 - from).drop_last() =~= g.take(i - from));
        v = v * 10 + (ch as u32 - '0' as u32) as u64;
        i = i + 1;
    }
    assert(g.take(n - from) =~= g);
    if n - from == 1 {
        Some(v * 100)
    } else if n - from == 2 {
        Some(v * 10)
    } else {
        Some(v)
    }
}

/// Reads a timestamp `clock` or `clock.fraction` (for example `1:02.5`,
/// `0:01.000`, `75`) as milliseconds.
pub fn parse_timestamp(s: &str) -> (r: Option<u64>)
    ensures
        r == timestamp_value(s@),
{
    let n = s.unicode_len();
    let mut k: usize = 0;
    while k < n && s.get_char(k) != '.'
        invariant
            k <= n == s@.len(),
            forall|j: int| 0 <= j < k ==> s@[j] != '.',
        decreases n - k,
    {
        k = k + 1;
    }
    if k == n {
        assert(!has_dot(s@));
        assert(s@.take(k as int) =~= s@);
        let secs = read_clock(s, k);
        proof {
            if is_clock(s@) {
                lemma_reading_grows(s@, 0, k as int);
                assert(s@.take(0) =~= Seq::<char>::empty());
            }
        }
        return match secs {
            Some(c) => if c > u64::MAX / 1000 {
                assert(c * 1000 > u64::MAX);
                None
            } else {
                Some(c * 1000)
            },
            None => None,
        };
    }
    assert(has_dot(s@));
    let secs = read_clock(s, k);
    let frac = read_fraction(s, k + 1);
    let ghost chosen = choose|j: int| 0 <= j < s@.len() && s@[j] == '.';
    proof {
        if chosen != k {
            assert(chosen > k);
            assert(s@.take(chosen)[k as int] == '.');
            assert(!is_clock(s@.take(chosen)));
        }
    }
    match (secs, frac) {
        (Some(c), Some(f)) => {
            proof {
                if chosen != k {
                    assert(s@.skip(k + 1)[chosen - k - 1] == '.');
                    assert(!is_fraction(s@.skip(k + 1)));
                }
            }
            assert(chosen == k);
            if c > (u64::MAX - f) / 1000 {
                assert(c * 1000 + f > u64::MAX);
                return None;
            }
            Some(c * 1000 + f)
        },
        _ => {
            proof {
                if chosen == k && is_clock(s@.take(k as int)) && is_fraction(s@.skip(k + 1)) {
                    lemma_decimal_nonneg(s@.skip(k + 1));
                    assert(clock_seconds(s@.take(k as int)) > u64::MAX);
                    assert(clock_seconds(s@.take(k as int)) * 1000 + fraction_ms(s@.skip(k + 1)) > u64::MAX);
                }
            }
            None
        },
    }
}

} // verus!

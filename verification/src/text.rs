use vstd::prelude::*;

verus! {

// ---------------------------------------------------------------------------
// Character-sequence equality and search
// ---------------------------------------------------------------------------

/// Whether two string slices hold the same characters.
pub fn str_eq(a: &str, b: &str) -> (r: bool)
    ensures
        r == (a@ == b@),
{
    let n = a.unicode_len();
    let m = b.unicode_len();
    if n != m {
        return false;
    }
    let mut i: usize = 0;
    while i < n
        invariant
            n == a@.len(),
            m == b@.len(),
            n == m,
            i <= n,
            forall|j: int| 0 <= j < i ==> a@[j] == b@[j],
        decreases n - i,
    {
        if a.get_char(i) != b.get_char(i) {
            return false;
        }
        i = i + 1;
    }
    assert(a@ =~= b@);
    true
}

/// Whether `needle` occurs in `hay` starting at position `at`.
pub open spec fn occurs_at(hay: Seq<char>, needle: Seq<char>, at: int) -> bool {
    0 <= at && at + needle.len() <= hay.len() && hay.subrange(at, at + needle.len()) == needle
}

/// Whether `needle` occurs anywhere in `hay`.
pub open spec fn contains_seq(hay: Seq<char>, needle: Seq<char>) -> bool {
    exists|at: int| occurs_at(hay, needle, at)
}

/// Whether `s` begins with `prefix`.
pub open spec fn has_prefix(s: Seq<char>, prefix: Seq<char>) -> bool {
    prefix.len() <= s.len() && s.subrange(0, prefix.len() as int) == prefix
}

fn matches_at(hay: &str, needle: &str, at: usize) -> (r: bool)
    requires
        at + needle@.len() <= hay@.len(),
    ensures
        r == occurs_at(hay@, needle@, at as int),
{
    let _h = hay.unicode_len();
    let n = needle.unicode_len();
    let mut j: usize = 0;
    while j < n
        invariant
            n == needle@.len(),
            _h == hay@.len(),
            at + n <= hay@.len(),
            j <= n,
            forall|k: int| 0 <= k < j ==> hay@[at + k] == needle@[k],
        decreases n - j,
    {
        if hay.get_char(at + j) != needle.get_char(j) {
            assert(hay@.subrange(at as int, at + n)[j as int] != needle@[j as int]);
            return false;
        }
        j = j + 1;
    }
    assert(hay@.subrange(at as int, at + n) =~= needle@);
    true
}

/// Whether `needle` occurs in `hay`.
pub fn str_contains(hay: &str, needle: &str) -> (r: bool)
    ensures
        r == contains_seq(hay@, needle@),
{
    let h = hay.unicode_len();
    let n = needle.unicode_len();
    if n == 0 {
        assert(occurs_at(hay@, needle@, 0)) by {
            assert(hay@.subrange(0, 0) =~= needle@);
        }
        return true;
    }
    if n > h {
        assert forall|at: int| !occurs_at(hay@, needle@, at) by {}
        return false;
    }
    let mut at: usize = 0;
    while at <= h - n
        invariant
            h == hay@.len(),
            n == needle@.len(),
            0 < n <= h,
            at <= h - n + 1,
            forall|k: int| 0 <= k < at ==> !occurs_at(hay@, needle@, k),
        decreases h - n + 1 - at,
    {
        if matches_at(hay, needle, at) {
            return true;
        }
        at = at + 1;
    }
    assert forall|k: int| !occurs_at(hay@, needle@, k) by {
        if 0 <= k && k < at {
        }
    }
    false
}

/// Whether `s` begins with `prefix`.
pub fn str_starts_with(s: &str, prefix: &str) -> (r: bool)
    ensures
        r == has_prefix(s@, prefix@),
{
    if prefix.unicode_len() > s.unicode_len() {
        return false;
    }
    let r = matches_at(s, prefix, 0);
    assert(r == has_prefix(s@, prefix@));
    r
}

/// Whether `s` ends with `suffix`.
pub open spec fn has_suffix(s: Seq<char>, suffix: Seq<char>) -> bool {
    suffix.len() <= s.len() && s.subrange(s.len() - suffix.len(), s.len() as int) == suffix
}

/// Whether `s` ends with `suffix`.
pub fn str_ends_with(s: &str, suffix: &str) -> (r: bool)
    ensures
        r == has_suffix(s@, suffix@),
{
    let h = s.unicode_len();
    let n = suffix.unicode_len();
    if n > h {
        return false;
    }
    matches_at(s, suffix, h - n)
}

/// The characters of `s` after its first `k`.
pub fn str_skip(s: &str, k: usize) -> (r: String)
    requires
        k <= s@.len(),
    ensures
        r@ == s@.skip(k as int),
{
    let n = s.unicode_len();
    String::from_str(s.substring_char(k, n))
}

/// The first `k` characters of `s`.
pub fn str_take(s: &str, k: usize) -> (r: String)
    requires
        k <= s@.len(),
    ensures
        r@ == s@.take(k as int),
{
    String::from_str(s.substring_char(0, k))
}

/// Position of the first occurrence of `c` in `s`.
pub open spec fn first_index_of(s: Seq<char>, c: char) -> Option<int> {
    if exists|i: int| 0 <= i < s.len() && s[i] == c {
        Some(choose|i: int| 0 <= i < s.len() && s[i] == c && forall|j: int| 0 <= j < i ==> s[j] != c)
    } else {
        None
    }
}

/// Finds the first `c` in `s`.
pub fn find_char(s: &str, c: char) -> (r: Option<usize>)
    ensures
        match r {
            Some(i) => i < s@.len() && s@[i as int] == c && forall|j: int| 0 <= j < i ==> s@[j] != c,
            None => forall|j: int| 0 <= j < s@.len() ==> s@[j] != c,
        },
{
    let n = s.unicode_len();
    let mut i: usize = 0;
    while i < n
        invariant
            n == s@.len(),
            i <= n,
            forall|j: int| 0 <= j < i ==> s@[j] != c,
        decreases n - i,
    {
        if s.get_char(i) == c {
            return Some(i);
        }
        i = i + 1;
    }
    None
}

/// The pieces of `s` before and after its first `c`, as `str::split_once`
/// gives them.
pub open spec fn split_once_spec(s: Seq<char>, c: char) -> Option<(Seq<char>, Seq<char>)> {
    if exists|i: int| 0 <= i < s.len() && s[i] == c {
        let i = choose|i: int| 0 <= i < s.len() && s[i] == c && forall|j: int| 0 <= j < i ==> s[j] != c;
        Some((s.take(i), s.skip(i + 1)))
    } else {
        None
    }
}

proof fn lemma_first_index_unique(s: Seq<char>, c: char, i: int)
    requires
        0 <= i < s.len(),
        s[i] == c,
        forall|j: int| 0 <= j < i ==> s[j] != c,
    ensures
        (choose|k: int| 0 <= k < s.len() && s[k] == c && forall|j: int| 0 <= j < k ==> s[j] != c) == i,
{
    let k = choose|k: int| 0 <= k < s.len() && s[k] == c && forall|j: int| 0 <= j < k ==> s[j] != c;
    assert(0 <= k < s.len() && s[k] == c && forall|j: int| 0 <= j < k ==> s[j] != c);
    if k < i {
        assert(s[k] != c);
    }
    if i < k {
        assert(s[i] != c);
    }
}

/// `str::split_once` on a single character.
pub fn split_once_char(s: &str, c: char) -> (r: Option<(String, String)>)
    ensures
        match r {
            Some((a, b)) => split_once_spec(s@, c) == Some((a@, b@)),
            None => split_once_spec(s@, c) is None,
        },
{
    let _len = s.unicode_len();
    match find_char(s, c) {
        Some(i) => {
            proof {
                lemma_first_index_unique(s@, c, i as int);
            }
            let a = str_take(s, i);
            let b = str_skip(s, i + 1);
            Some((a, b))
        },
        None => None,
    }
}

// ---------------------------------------------------------------------------
// Decimal numbers
// ---------------------------------------------------------------------------

pub open spec fn is_digit(c: char) -> bool {
    '0' <= c && c <= '9'
}

pub open spec fn digit_value(c: char) -> nat {
    (c as int - '0' as int) as nat
}

pub open spec fn digit_char(d: nat) -> char {
    (d + '0' as int) as char
}

/// The number that a string of decimal digits stands for.
pub open spec fn decimal_value(ds: Seq<char>) -> nat
    decreases ds.len(),
{
    if ds.len() == 0 {
        0
    } else {
        decimal_value(ds.drop_last()) * 10 + digit_value(ds.last())
    }
}

/// The decimal form of `n`, without leading zeros.
pub open spec fn decimal(n: nat) -> Seq<char>
    decreases n,
{
    if n < 10 {
        seq![digit_char(n)]
    } else {
        decimal(n / 10).push(digit_char(n % 10))
    }
}

pub open spec fn all_digits(ds: Seq<char>) -> bool {
    forall|i: int| 0 <= i < ds.len() ==> is_digit(#[trigger] ds[i])
}

/// The digits that `usize::from_str` reads: an optional leading `+` is
/// dropped.
pub open spec fn unsigned_digits(s: Seq<char>) -> Seq<char> {
    if s.len() > 0 && s[0] == '+' {
        s.drop_first()
    } else {
        s
    }
}

/// Whether `usize::from_str` accepts `s`.
pub open spec fn parses_as_usize(s: Seq<char>) -> bool {
    let ds = unsigned_digits(s);
    &&& ds.len() > 0
    &&& all_digits(ds)
    &&& decimal_value(ds) <= usize::MAX
}

pub proof fn lemma_decimal_digits(n: nat)
    ensures
        all_digits(decimal(n)),
        decimal(n).len() > 0,
        decimal_value(decimal(n)) == n,
        decimal(n)[0] != '+',
    decreases n,
{
    if n < 10 {
        assert(digit_value(digit_char(n)) == n);
        assert(decimal(n) =~= seq![digit_char(n)]);
        assert(decimal(n).drop_last() =~= Seq::<char>::empty());
        assert(decimal_value(Seq::<char>::empty()) == 0);
        assert(decimal_value(decimal(n)) == decimal_value(decimal(n).drop_last()) * 10 + digit_value(decimal(n).last()));
    } else {
        lemma_decimal_digits(n / 10);
        let d = decimal(n);
        assert(d.drop_last() =~= decimal(n / 10));
        assert(digit_value(digit_char(n % 10)) == n % 10);
        assert(n == (n / 10) * 10 + n % 10);
        assert(decimal_value(d) == decimal_value(d.drop_last()) * 10 + digit_value(d.last()));
        assert(d.last() == digit_char(n % 10));
        assert forall|i: int| 0 <= i < d.len() implies is_digit(#[trigger] d[i]) by {
            if i < d.len() - 1 {
                assert(d[i] == decimal(n / 10)[i]);
            }
        }
        assert(d[0] == decimal(n / 10)[0]);
    }
}

proof fn lemma_value_prefix_le(ds: Seq<char>, k: int)
    requires
        0 <= k <= ds.len(),
        all_digits(ds),
    ensures
        decimal_value(ds.take(k)) <= decimal_value(ds),
    decreases ds.len(),
{
    if k < ds.len() {
        let dl = ds.drop_last();
        assert(all_digits(dl)) by {
            assert forall|i: int| 0 <= i < dl.len() implies is_digit(#[trigger] dl[i]) by {
                assert(dl[i] == ds[i]);
            }
        }
        lemma_value_prefix_le(dl, k);
        assert(dl.take(k) =~= ds.take(k));
        assert(decimal_value(ds) == decimal_value(dl) * 10 + digit_value(ds.last()));
    } else {
        assert(ds.take(k) =~= ds);
    }
}

fn digit_text(d: usize) -> (s: &'static str)
    requires
        d < 10,
    ensures
        s@ == seq![digit_char(d as nat)],
{
    if d == 0 {
        proof { reveal_strlit("0"); }
        "0"
    } else if d == 1 {
        proof { reveal_strlit("1"); }
        "1"
    } else if d == 2 {
        proof { reveal_strlit("2"); }
        "2"
    } else if d == 3 {
        proof { reveal_strlit("3"); }
        "3"
    } else if d == 4 {
        proof { reveal_strlit("4"); }
        "4"
    } else if d == 5 {
        proof { reveal_strlit("5"); }
        "5"
    } else if d == 6 {
        proof { reveal_strlit("6"); }
        "6"
    } else if d == 7 {
        proof { reveal_strlit("7"); }
        "7"
    } else if d == 8 {
        proof { reveal_strlit("8"); }
        "8"
    } else {
        proof { reveal_strlit("9"); }
        "9"
    }
}

/// The decimal text of `n`, as `usize::to_string` writes it.
pub fn format_usize(n: usize) -> (s: String)
    ensures
        s@ == decimal(n as nat),
    decreases n,
{
    let d = digit_text(n % 10);
    if n < 10 {
        String::from_str(d)
    } else {
        let mut s = format_usize(n / 10);
        s.append(d);
        assert(s@ =~= decimal((n / 10) as nat).push(digit_char((n % 10) as nat)));
        s
    }
}

/// `usize::from_str`: an optional `+`, then one or more ASCII digits whose
/// value fits in a `usize`.
pub fn parse_usize(s: &str) -> (r: Option<usize>)
    ensures
        r is Some <==> parses_as_usize(s@),
        r matches Some(n) ==> n as nat == decimal_value(unsigned_digits(s@)),
{
    let len = s.unicode_len();
    let mut start: usize = 0;
    if len > 0 && s.get_char(0) == '+' {
        start = 1;
    }
    let ghost ds = unsigned_digits(s@);
    assert(ds =~= s@.skip(start as int));
    if start >= len {
        return None;
    }
    let mut acc: usize = 0;
    let mut i: usize = start;
    assert(ds.take(0) =~= Seq::<char>::empty());
    while i < len
        invariant
            len == s@.len(),
            start <= i <= len,
            ds == s@.skip(start as int),
            ds == unsigned_digits(s@),
            forall|j: int| 0 <= j < i - start ==> is_digit(#[trigger] ds[j]),
            acc as nat == decimal_value(ds.take(i - start)),
        decreases len - i,
    {
        let c = s.get_char(i);
        let k: Ghost<int> = Ghost(i - start);
        assert(ds[k@] == c);
        if !('0' <= c && c <= '9') {
            assert(!is_digit(ds[k@]));
            assert(!all_digits(ds));
            return None;
        }
        let d: u32 = (c as u32) - ('0' as u32);
        assert(ds.take(k@ + 1).drop_last() =~= ds.take(k@));
        assert(ds.take(k@ + 1).last() == c);
        match acc.checked_mul(10) {
            Some(m) => match m.checked_add(d as usize) {
                Some(v) => {
                    acc = v;
                },
                None => {
                    proof {
                        assert(decimal_value(ds.take(k@ + 1)) > usize::MAX);
                        if all_digits(ds) {
                            lemma_value_prefix_le(ds, k@ + 1);
                        }
                    }
                    return None;
                },
            },
            None => {
                proof {
                    assert(decimal_value(ds.take(k@ + 1)) > usize::MAX) by (nonlinear_arith)
                        requires
                            decimal_value(ds.take(k@ + 1)) == (acc as nat) * 10 + digit_value(c),
                            (acc as nat) * 10 > usize::MAX,
                    ;
                    if all_digits(ds) {
                        lemma_value_prefix_le(ds, k@ + 1);
                    }
                }
                return None;
            },
        }
        i = i + 1;
    }
    assert(ds.take(len - start) =~= ds);
    Some(acc)
}

/// Formatting then parsing a number gives it back.
pub proof fn lemma_parse_format_roundtrip(n: usize)
    ensures
        parses_as_usize(decimal(n as nat)),
        decimal_value(unsigned_digits(decimal(n as nat))) == n,
{
    lemma_decimal_digits(n as nat);
}

} // verus!

verus! {

// ---------------------------------------------------------------------------
// Whitespace
// ---------------------------------------------------------------------------

/// `char::is_whitespace`: the characters with the Unicode `White_Space`
/// property.
pub open spec fn is_whitespace(c: char) -> bool {
    ||| ('\u{9}' <= c && c <= '\u{d}')
    ||| c == ' '
    ||| c == '\u{85}'
    ||| c == '\u{a0}'
    ||| c == '\u{1680}'
    ||| ('\u{2000}' <= c && c <= '\u{200a}')
    ||| c == '\u{2028}'
    ||| c == '\u{2029}'
    ||| c == '\u{202f}'
    ||| c == '\u{205f}'
    ||| c == '\u{3000}'
}

fn char_is_whitespace(c: char) -> (r: bool)
    ensures
        r == is_whitespace(c),
{
    ('\u{9}' <= c && c <= '\u{d}') || c == ' ' || c == '\u{85}' || c == '\u{a0}' || c == '\u{1680}'
        || ('\u{2000}' <= c && c <= '\u{200a}') || c == '\u{2028}' || c == '\u{2029}' || c == '\u{202f}'
        || c == '\u{205f}' || c == '\u{3000}'
}

/// `s` without leading and trailing whitespace, as `str::trim` gives it:
/// the part from `lo` to `hi` where everything before `lo` and from `hi`
/// on is whitespace, and the characters at `lo` and `hi - 1` are not.
pub open spec fn is_trim_of(s: Seq<char>, t: Seq<char>) -> bool {
    exists|lo: int, hi: int| trim_bounds(s, lo, hi) && t == s.subrange(lo, hi)
}

pub open spec fn trim_bounds(s: Seq<char>, lo: int, hi: int) -> bool {
    &&& 0 <= lo <= hi <= s.len()
    &&& forall|j: int| 0 <= j < lo ==> is_whitespace(#[trigger] s[j])
    &&& forall|j: int| hi <= j < s.len() ==> is_whitespace(#[trigger] s[j])
    &&& lo < hi ==> !is_whitespace(s[lo]) && !is_whitespace(s[hi - 1])
    &&& lo == hi ==> lo == 0 && hi == 0 && forall|j: int| 0 <= j < s.len() ==> is_whitespace(#[trigger] s[j])
}

proof fn lemma_trim_bounds_unique(s: Seq<char>, lo: int, hi: int, lo2: int, hi2: int)
    requires
        trim_bounds(s, lo, hi),
        trim_bounds(s, lo2, hi2),
    ensures
        lo == lo2 && hi == hi2,
{
    if lo < hi && lo2 < hi2 {
        if lo < lo2 {
            assert(is_whitespace(s[lo]));
        }
        if lo2 < lo {
            assert(is_whitespace(s[lo2]));
        }
        if hi < hi2 {
            assert(is_whitespace(s[hi2 - 1]));
        }
        if hi2 < hi {
            assert(is_whitespace(s[hi - 1]));
        }
    } else if lo < hi {
        assert(is_whitespace(s[lo]));
    } else if lo2 < hi2 {
        assert(is_whitespace(s[lo2]));
    }
}

/// `s` without its leading and trailing whitespace.
pub open spec fn trimmed(s: Seq<char>) -> Seq<char> {
    choose|t: Seq<char>| is_trim_of(s, t)
}

/// `str::trim`.
pub fn trim(s: &str) -> (r: String)
    ensures
        is_trim_of(s@, r@),
        r@ == trimmed(s@),
{
    let n = s.unicode_len();
    let mut lo: usize = 0;
    while lo < n && char_is_whitespace(s.get_char(lo))
        invariant
            n == s@.len(),
            lo <= n,
            forall|j: int| 0 <= j < lo ==> is_whitespace(#[trigger] s@[j]),
        decreases n - lo,
    {
        lo = lo + 1;
    }
    if lo == n {
        let r = String::new();
        assert(trim_bounds(s@, 0, 0));
        assert(r@ =~= s@.subrange(0, 0));
        proof {
            lemma_trimmed_is(s@, 0, 0);
        }
        return r;
    }
    let mut hi: usize = n;
    while hi > lo && char_is_whitespace(s.get_char(hi - 1))
        invariant
            n == s@.len(),
            lo < n,
            !is_whitespace(s@[lo as int]),
            lo <= hi <= n,
            forall|j: int| hi <= j < n ==> is_whitespace(#[trigger] s@[j]),
        decreases hi,
    {
        hi = hi - 1;
    }
    let r = String::from_str(s.substring_char(lo, hi));
    assert(trim_bounds(s@, lo as int, hi as int));
    proof {
        lemma_trimmed_is(s@, lo as int, hi as int);
    }
    r
}

proof fn lemma_trimmed_is(s: Seq<char>, lo: int, hi: int)
    requires
        trim_bounds(s, lo, hi),
    ensures
        trimmed(s) == s.subrange(lo, hi),
{
    assert(is_trim_of(s, s.subrange(lo, hi)));
    let t = trimmed(s);
    assert(is_trim_of(s, t));
    let (lo2, hi2) = choose|lo2: int, hi2: int| trim_bounds(s, lo2, hi2) && t == s.subrange(lo2, hi2);
    lemma_trim_bounds_unique(s, lo, hi, lo2, hi2);
}

} // verus!

verus! {

/// `items` joined with `sep` between each two, as `[T]::join` does.
pub open spec fn joined(items: Seq<Seq<char>>, sep: Seq<char>) -> Seq<char>
    decreases items.len(),
{
    if items.len() == 0 {
        Seq::empty()
    } else if items.len() == 1 {
        items[0]
    } else {
        joined(items.drop_last(), sep) + sep + items.last()
    }
}

/// Joins `items` with `sep` between each two.
pub fn join_strings(items: &Vec<String>, sep: &str) -> (r: String)
    ensures
        r@ == joined(items@.map_values(|s: String| s@), sep@),
{
    let ghost iv = items@.map_values(|s: String| s@);
    let mut r = String::new();
    let n = items.len();
    let mut i: usize = 0;
    assert(iv.take(0) =~= Seq::<Seq<char>>::empty());
    while i < n
        invariant
            n == items@.len(),
            iv == items@.map_values(|s: String| s@),
            i <= n,
            r@ == joined(iv.take(i as int), sep@),
        decreases n - i,
    {
        assert(iv.take(i + 1).drop_last() =~= iv.take(i as int));
        if i > 0 {
            r.append(sep);
        } else {
            assert(r@ =~= Seq::<char>::empty());
        }
        r.append(items[i].as_str());
        if i == 0 {
            assert(r@ =~= iv.take(1)[0]);
        }
        i = i + 1;
    }
    assert(iv.take(n as int) =~= iv);
    r
}

} // verus!

verus! {

/// Whether `x` is one of the texts in `v`.
pub open spec fn has_text(v: Seq<String>, x: Seq<char>) -> bool {
    exists|j: int| 0 <= j < v.len() && (#[trigger] v[j])@ == x
}

/// Whether `x` is one of the texts in `v` (exact comparison).
pub fn contains_text(v: &Vec<String>, x: &str) -> (r: bool)
    ensures
        r == has_text(v@, x@),
{
    let n = v.len();
    let mut j: usize = 0;
    while j < n
        invariant
            n == v@.len(),
            j <= n,
            forall|k: int| 0 <= k < j ==> (#[trigger] v@[k])@ != x@,
        decreases n - j,
    {
        if str_eq(v[j].as_str(), x) {
            return true;
        }
        j = j + 1;
    }
    false
}

/// The positions, in increasing order, of the items that do not occur in
/// `others`.
pub fn absent_from(items: &Vec<String>, others: &Vec<String>) -> (r: Vec<usize>)
    ensures
        forall|k: int| 0 <= k < r@.len() ==> r@[k] < items@.len(),
        forall|i: int| 0 <= i < items@.len() ==> (r@.contains(i as usize) <==> !has_text(
            others@,
            (#[trigger] items@[i])@,
        )),
        forall|a: int, b: int| 0 <= a < b < r@.len() ==> r@[a] < r@[b],
{
    let mut out: Vec<usize> = Vec::new();
    let n = items.len();
    let mut i: usize = 0;
    while i < n
        invariant
            n == items@.len(),
            i <= n,
            forall|k: int| 0 <= k < out@.len() ==> out@[k] < i,
            forall|a: int, b: int| 0 <= a < b < out@.len() ==> out@[a] < out@[b],
            forall|x: int| 0 <= x < i ==> (out@.contains(x as usize) <==> !has_text(
                others@,
                (#[trigger] items@[x])@,
            )),
        decreases n - i,
    {
        let present = contains_text(others, items[i].as_str());
        let ghost before = out@;
        if !present {
            out.push(i);
            assert(out@ == before.push(i));
            assert forall|x: int| 0 <= x < i implies (#[trigger] out@.contains(x as usize) <==> before.contains(
                x as usize,
            )) by {
                if out@.contains(x as usize) {
                    let k = choose|k: int| 0 <= k < out@.len() && out@[k] == x as usize;
                    if k < before.len() {
                        assert(before[k] == x as usize);
                    }
                }
                if before.contains(x as usize) {
                    let k = choose|k: int| 0 <= k < before.len() && before[k] == x as usize;
                    assert(out@[k] == x as usize);
                }
            }
            assert(out@[before.len() as int] == i);
        } else {
            assert(!out@.contains(i));
        }
        i = i + 1;
    }
    out
}

} // verus!

//! Character-level text utilities: whitespace, trimming, splitting into words and
//! lines, substring search, decimal numbers and placeholder replacement, each
//! specified over `Seq<char>`.
use vstd::prelude::*;

verus! {

/// Unicode `White_Space` (the set `char::is_whitespace` tests).
pub open spec fn is_ws(c: char) -> bool {
    let u = c as u32;
    ||| 9 <= u <= 13
    ||| u == 32
    ||| u == 0x85
    ||| u == 0xA0
    ||| u == 0x1680
    ||| 0x2000 <= u <= 0x200A
    ||| u == 0x2028
    ||| u == 0x2029
    ||| u == 0x202F
    ||| u == 0x205F
    ||| u == 0x3000
}

pub fn is_whitespace(c: char) -> (r: bool)
    ensures
        r == is_ws(c),
{
    let u = c as u32;
    (9 <= u && u <= 13) || u == 32 || u == 0x85 || u == 0xA0 || u == 0x1680 || (0x2000 <= u
        && u <= 0x200A) || u == 0x2028 || u == 0x2029 || u == 0x202F || u == 0x205F || u
        == 0x3000
}

/// `s` without its leading whitespace.
pub open spec fn trim_start(s: Seq<char>) -> Seq<char>
    decreases s.len(),
{
    if s.len() > 0 && is_ws(s[0]) {
        trim_start(s.drop_first())
    } else {
        s
    }
}

/// `s` without its trailing whitespace.
pub open spec fn trim_end(s: Seq<char>) -> Seq<char>
    decreases s.len(),
{
    if s.len() > 0 && is_ws(s.last()) {
        trim_end(s.drop_last())
    } else {
        s
    }
}

/// `s` without leading and trailing whitespace (as `str::trim`).
pub open spec fn trim(s: Seq<char>) -> Seq<char> {
    trim_end(trim_start(s))
}

/// The maximal runs of non-whitespace characters of `s`, in order
/// (as `str::split_whitespace`).
pub open spec fn words(s: Seq<char>) -> Seq<Seq<char>>
    decreases s.len(),
{
    if s.len() == 0 {
        seq![]
    } else {
        let prev = words(s.drop_last());
        let c = s.last();
        if is_ws(c) {
            prev
        } else if s.len() >= 2 && !is_ws(s[s.len() - 2]) {
            prev.update(prev.len() - 1, prev.last().push(c))
        } else {
            prev.push(seq![c])
        }
    }
}

/// The pieces of `s` between `'\n'` characters (as `str::split('\n')`): never empty.
pub open spec fn nl_split(s: Seq<char>) -> Seq<Seq<char>>
    decreases s.len(),
{
    if s.len() == 0 {
        seq![seq![]]
    } else {
        let prev = nl_split(s.drop_last());
        if s.last() == '\n' {
            prev.push(seq![])
        } else {
            prev.update(prev.len() - 1, prev.last().push(s.last()))
        }
    }
}

/// A line that was ended by `'\n'` loses one `'\r'` before it.
pub open spec fn strip_cr(l: Seq<char>) -> Seq<char> {
    if l.len() > 0 && l.last() == '\r' {
        l.drop_last()
    } else {
        l
    }
}

/// The lines of `s` (as `str::lines`): split at `'\n'` or `"\r\n"`; a final line
/// ending does not start another, empty, line.
pub open spec fn lines(s: Seq<char>) -> Seq<Seq<char>> {
    let parts = nl_split(s);
    let ended = parts.take(parts.len() - 1).map_values(|l: Seq<char>| strip_cr(l));
    if parts.last().len() == 0 {
        ended
    } else {
        ended.push(parts.last())
    }
}

/// The index of the first `c` in `s`, if any.
pub open spec fn find_char(s: Seq<char>, c: char) -> Option<int>
    decreases s.len(),
{
    if s.len() == 0 {
        None
    } else if s[0] == c {
        Some(0)
    } else {
        match find_char(s.drop_first(), c) {
            Some(i) => Some(i + 1),
            None => None,
        }
    }
}

/// `s` split at its first `c` (as `str::split_once`).
pub open spec fn split_once(s: Seq<char>, c: char) -> Option<(Seq<char>, Seq<char>)> {
    match find_char(s, c) {
        Some(i) => Some((s.take(i), s.skip(i + 1))),
        None => None,
    }
}

/// `s` without the prefix `p`, when it starts with `p`.
pub open spec fn strip_prefix(s: Seq<char>, p: Seq<char>) -> Option<Seq<char>> {
    if p.len() <= s.len() && s.take(p.len() as int) == p {
        Some(s.skip(p.len() as int))
    } else {
        None
    }
}

/// `s` without the suffix `p`, when it ends with `p`.
pub open spec fn strip_suffix(s: Seq<char>, p: Seq<char>) -> Option<Seq<char>> {
    if p.len() <= s.len() && s.skip(s.len() - p.len()) == p {
        Some(s.take(s.len() - p.len()))
    } else {
        None
    }
}

/// `t` occurs in `s` at index `i`.
pub open spec fn occurs_at(s: Seq<char>, t: Seq<char>, i: int) -> bool {
    0 <= i && i + t.len() <= s.len() && s.subrange(i, i + t.len()) == t
}

/// `t` occurs somewhere in `s` (as `str::contains`).
pub open spec fn contains_seq(s: Seq<char>, t: Seq<char>) -> bool {
    exists|i: int| occurs_at(s, t, i)
}

pub open spec fn is_digit(c: char) -> bool {
    48 <= (c as u32) <= 57
}

pub open spec fn digit_value(c: char) -> nat {
    ((c as u32) - 48) as nat
}

/// The number that the decimal digits `s` write.
pub open spec fn decimal_value(s: Seq<char>) -> nat
    decreases s.len(),
{
    if s.len() == 0 {
        0
    } else {
        decimal_value(s.drop_last()) * 10 + digit_value(s.last())
    }
}

pub open spec fn all_digits(s: Seq<char>) -> bool {
    forall|i: int| 0 <= i < s.len() ==> is_digit(#[trigger] s[i])
}

/// What `str::parse::<u64>` gives, as an `Option`: an optional `'+'`, then one or
/// more ASCII digits whose value fits in a `u64`.
pub open spec fn parse_u64(s: Seq<char>) -> Option<u64> {
    let d = if s.len() > 0 && s[0] == '+' {
        s.drop_first()
    } else {
        s
    };
    if d.len() > 0 && all_digits(d) && decimal_value(d) <= u64::MAX {
        Some(decimal_value(d) as u64)
    } else {
        None
    }
}

/// The shortest decimal digits of `n` (as `n.to_string()`).
pub open spec fn decimal_digits(n: nat) -> Seq<char>
    decreases n,
{
    if n < 10 {
        seq![((n + 48) as u8) as char]
    } else {
        decimal_digits(n / 10).push((((n % 10) + 48) as u8) as char)
    }
}

/// Every non-overlapping occurrence of `from` in `s`, leftmost first, replaced
/// by `to` (as `str::replace`).
pub open spec fn replace_all(s: Seq<char>, from: Seq<char>, to: Seq<char>) -> Seq<char>
    decreases s.len(),
{
    if from.len() == 0 {
        if s.len() == 0 {
            to
        } else {
            to + seq![s[0]] + replace_all(s.drop_first(), from, to)
        }
    } else if s.len() == 0 {
        s
    } else if occurs_at(s, from, 0) {
        to + replace_all(s.skip(from.len() as int), from, to)
    } else {
        seq![s[0]] + replace_all(s.drop_first(), from, to)
    }
}

/// Replacing a pattern that does not occur changes nothing.
pub proof fn lemma_replace_absent(s: Seq<char>, from: Seq<char>, to: Seq<char>)
    requires
        from.len() > 0,
        !contains_seq(s, from),
    ensures
        replace_all(s, from, to) == s,
    decreases s.len(),
{
    if s.len() > 0 {
        assert(!occurs_at(s, from, 0));
        let t = s.drop_first();
        assert(!contains_seq(t, from)) by {
            if exists|k: int| occurs_at(t, from, k) {
                let k = choose|k: int| occurs_at(t, from, k);
                assert(s.subrange(k + 1, k + 1 + from.len()) =~= t.subrange(k, k + from.len()));
                assert(occurs_at(s, from, k + 1));
            }
        }
        lemma_replace_absent(t, from, to);
        assert(seq![s[0]] + t =~= s);
    }
}

/// No character of `s` is whitespace.
pub open spec fn no_ws(s: Seq<char>) -> bool {
    forall|i: int| 0 <= i < s.len() ==> !is_ws(#[trigger] s[i])
}

/// A text that begins and ends with non-whitespace is its own trim.
pub proof fn lemma_trim_unchanged(s: Seq<char>)
    requires
        s.len() > 0,
        !is_ws(s[0]),
        !is_ws(s.last()),
    ensures
        trim(s) == s,
{
}

/// A text that ends with a non-whitespace character has a word.
pub proof fn lemma_words_nonempty(s: Seq<char>)
    requires
        s.len() > 0,
        !is_ws(s.last()),
    ensures
        words(s).len() >= 1,
    decreases s.len(),
{
    if s.len() >= 2 && !is_ws(s[s.len() - 2]) {
        lemma_words_nonempty(s.drop_last());
    }
}

/// Words after a whitespace character (or at the start) do not join the
/// words before it.
pub proof fn lemma_words_append(x: Seq<char>, b: Seq<char>)
    requires
        x.len() == 0 || is_ws(x.last()),
    ensures
        words(x + b) == words(x) + words(b),
    decreases b.len(),
{
    if b.len() == 0 {
        assert(x + b =~= x);
        assert(words(b) =~= Seq::<Seq<char>>::empty());
        assert(words(x) + words(b) =~= words(x));
    } else {
        let b1 = b.drop_last();
        let c = b.last();
        lemma_words_append(x, b1);
        assert((x + b).drop_last() =~= x + b1);
        assert((x + b).last() == c);
        let prev = words(x + b1);
        if is_ws(c) {
            assert(words(b) == words(b1));
        } else if b1.len() > 0 && !is_ws(b1.last()) {
            lemma_words_nonempty(b1);
            assert((x + b)[(x + b).len() - 2] == b1.last());
            assert(b[b.len() - 2] == b1.last());
            assert(words(x + b) =~= words(x) + words(b));
        } else {
            if b1.len() == 0 {
                assert(x + b =~= x.push(c));
                if x.len() > 0 {
                    assert((x + b)[(x + b).len() - 2] == x.last());
                }
            } else {
                assert((x + b)[(x + b).len() - 2] == b1.last());
            }
            assert(words(x + b) =~= words(x) + words(b));
        }
    }
}

/// A non-empty text without whitespace is one word.
pub proof fn lemma_words_single(w: Seq<char>)
    requires
        w.len() > 0,
        no_ws(w),
    ensures
        words(w) == seq![w],
    decreases w.len(),
{
    assert(!is_ws(w[w.len() - 1]));
    if w.len() == 1 {
        assert(w.drop_last() =~= Seq::<char>::empty());
        assert(w =~= seq![w[0]]);
        assert(words(Seq::<char>::empty()) =~= Seq::<Seq<char>>::empty());
        assert(words(w) =~= seq![w]);
    } else {
        let w1 = w.drop_last();
        assert(no_ws(w1)) by {
            assert forall|i: int| 0 <= i < w1.len() implies !is_ws(#[trigger] w1[i]) by {
                assert(w1[i] == w[i]);
            }
        }
        lemma_words_single(w1);
        assert(w[w.len() - 2] == w1.last());
        assert(!is_ws(w[w.len() - 2]));
        assert(w1.push(w.last()) =~= w);
        assert(words(w) =~= seq![w]);
    }
}

/// Words separated by one space.
pub proof fn lemma_words_space(a: Seq<char>, b: Seq<char>)
    ensures
        words(a + seq![' '] + b) == words(a) + words(b),
{
    let x = a + seq![' '];
    assert(is_ws(' '));
    assert(x.drop_last() =~= a);
    assert(words(x) == words(a));
    lemma_words_append(x, b);
    assert(a + seq![' '] + b =~= x + b);
}

/// The digits of `n` read back as `n`.
pub proof fn lemma_decimal_digits(n: nat)
    ensures
        decimal_digits(n).len() > 0,
        all_digits(decimal_digits(n)),
        decimal_value(decimal_digits(n)) == n,
        decimal_digits(n)[0] != '+',
        !is_ws(decimal_digits(n).last()),
    decreases n,
{
    if n < 10 {
        let d = decimal_digits(n);
        assert(d.drop_last() =~= Seq::<char>::empty());
        assert(((n + 48) as u8) as char as u32 == n + 48);
        assert(decimal_value(Seq::<char>::empty()) == 0);
        assert(d.last() == ((n + 48) as u8) as char);
        assert(digit_value(d.last()) == n);
    } else {
        lemma_decimal_digits(n / 10);
        let p = decimal_digits(n / 10);
        let d = decimal_digits(n);
        let c = (((n % 10) + 48) as u8) as char;
        assert(c as u32 == (n % 10) + 48);
        assert(digit_value(c) == n % 10);
        assert(n == (n / 10) * 10 + n % 10);
        assert(d == p.push(c));
        assert(d.drop_last() =~= p);
        assert forall|i: int| 0 <= i < d.len() implies is_digit(#[trigger] d[i]) by {
            if i < p.len() {
                assert(d[i] == p[i]);
            }
        }
    }
}

/// `str::parse::<u64>` reads back the decimal digits of any `u64`.
pub proof fn lemma_parse_decimal(n: u64)
    ensures
        parse_u64(decimal_digits(n as nat)) == Some(n),
{
    lemma_decimal_digits(n as nat);
}

/// Appends `c` to `s` by `String::push`. Trusted, not proved: the contract
/// claims what its documentation says, that the string afterwards holds its old
/// characters followed by `c`.
#[verifier::external_body]
fn push_char(s: &mut String, c: char)
    ensures
        final(s)@ == old(s)@.push(c),
{
    s.push(c)
}

/// The characters of `s`, in order.
pub fn to_chars(s: &str) -> (v: Vec<char>)
    ensures
        v@ == s@,
{
    let mut v: Vec<char> = Vec::new();
    for c in it: s.chars()
        invariant
            v@ == it.seq().take(it.index() as int),
    {
        v.push(c);
    }
    v
}

/// The string whose characters are `v`.
pub fn string_from_chars(v: &[char]) -> (s: String)
    ensures
        s@ == v@,
{
    let mut s = String::new();
    let mut i: usize = 0;
    while i < v.len()
        invariant
            i <= v.len(),
            s@ == v@.take(i as int),
        decreases v.len() - i,
    {
        push_char(&mut s, v[i]);
        i = i + 1;
        assert(s@ =~= v@.take(i as int));
    }
    assert(v@.take(v@.len() as int) =~= v@);
    s
}

/// Whether `a` and `b` hold the same characters.
pub fn chars_eq(a: &[char], b: &[char]) -> (r: bool)
    ensures
        r == (a@ == b@),
{
    if a.len() != b.len() {
        return false;
    }
    let mut i: usize = 0;
    while i < a.len()
        invariant
            a.len() == b.len(),
            i <= a.len(),
            forall|k: int| 0 <= k < i ==> a@[k] == b@[k],
        decreases a.len() - i,
    {
        if a[i] != b[i] {
            return false;
        }
        i = i + 1;
    }
    assert(a@ =~= b@);
    true
}

/// The bounds of `s` without its leading and trailing whitespace.
pub fn trim_range(s: &[char]) -> (r: (usize, usize))
    ensures
        r.0 <= r.1 <= s.len(),
        s@.subrange(r.0 as int, r.1 as int) == trim(s@),
{
    let mut i: usize = 0;
    assert(s@.skip(0) =~= s@);
    while i < s.len() && is_whitespace(s[i])
        invariant
            i <= s.len(),
            trim_start(s@) == trim_start(s@.skip(i as int)),
        decreases s.len() - i,
    {
        assert(s@.skip(i as int).drop_first() =~= s@.skip(i + 1));
        i = i + 1;
    }
    assert(trim_start(s@.skip(i as int)) == s@.skip(i as int));
    let mut j: usize = s.len();
    while j > i && is_whitespace(s[j - 1])
        invariant
            i <= j <= s.len(),
            trim_start(s@) == s@.skip(i as int),
            trim_end(s@.skip(i as int)) == trim_end(s@.subrange(i as int, j as int)),
        decreases j,
    {
        assert(s@.subrange(i as int, j as int).drop_last() =~= s@.subrange(i as int, j - 1));
        j = j - 1;
    }
    assert(s@.skip(i as int) =~= s@.subrange(i as int, s.len() as int));
    assert(trim_end(s@.subrange(i as int, j as int)) == s@.subrange(i as int, j as int));
    (i, j)
}

/// The characters of `s` from `lo` to `hi`.
pub fn copy_range(s: &[char], lo: usize, hi: usize) -> (v: Vec<char>)
    requires
        lo <= hi <= s.len(),
    ensures
        v@ == s@.subrange(lo as int, hi as int),
{
    let mut v: Vec<char> = Vec::new();
    let mut i: usize = lo;
    while i < hi
        invariant
            lo <= i <= hi <= s.len(),
            v@ == s@.subrange(lo as int, i as int),
        decreases hi - i,
    {
        v.push(s[i]);
        i = i + 1;
        assert(v@ =~= s@.subrange(lo as int, i as int));
    }
    v
}

/// `s` without leading and trailing whitespace.
pub fn trim_chars(s: &[char]) -> (v: Vec<char>)
    ensures
        v@ == trim(s@),
{
    let (lo, hi) = trim_range(s);
    copy_range(s, lo, hi)
}

/// The words of `s` (its maximal runs of non-whitespace characters).
pub fn split_words(s: &[char]) -> (r: Vec<Vec<char>>)
    ensures
        r.len() == words(s@).len(),
        forall|k: int| 0 <= k < r.len() ==> (#[trigger] r@[k])@ == words(s@)[k],
{
    let mut out: Vec<Vec<char>> = Vec::new();
    let mut cur: Vec<char> = Vec::new();
    let mut in_word = false;
    let mut i: usize = 0;
    while i < s.len()
        invariant
            i <= s.len(),
            in_word == (i > 0 && !is_ws(s@[i - 1])),
            in_word ==> words(s@.take(i as int)).len() == out.len() + 1 && words(
                s@.take(i as int),
            ).last() == cur@,
            !in_word ==> words(s@.take(i as int)).len() == out.len() && cur@.len() == 0,
            forall|k: int| 0 <= k < out.len() ==> (#[trigger] out@[k])@ == words(s@.take(i as int))[k],
        decreases s.len() - i,
    {
        let c = s[i];
        let ghost prev = words(s@.take(i as int));
        assert(s@.take(i + 1).drop_last() =~= s@.take(i as int));
        assert(s@.take(i + 1).last() == c);
        if is_whitespace(c) {
            if in_word {
                out.push(cur);
                cur = Vec::new();
                in_word = false;
            }
        } else {
            cur.push(c);
            in_word = true;
        }
        i = i + 1;
        assert(words(s@.take(i as int)).len() == out.len() + (if in_word { 1int } else { 0 }));
    }
    if in_word {
        out.push(cur);
    }
    assert(s@.take(s.len() as int) =~= s@);
    out
}

/// The lines of `s`, as `str::lines` gives them.
pub fn split_lines(s: &[char]) -> (r: Vec<Vec<char>>)
    ensures
        r.len() == lines(s@).len(),
        forall|k: int| 0 <= k < r.len() ==> (#[trigger] r@[k])@ == lines(s@)[k],
{
    let mut out: Vec<Vec<char>> = Vec::new();
    let mut cur: Vec<char> = Vec::new();
    let mut i: usize = 0;
    while i < s.len()
        invariant
            i <= s.len(),
            nl_split(s@.take(i as int)).len() == out.len() + 1,
            nl_split(s@.take(i as int)).last() == cur@,
            forall|k: int|
                0 <= k < out.len() ==> (#[trigger] out@[k])@ == strip_cr(
                    nl_split(s@.take(i as int))[k],
                ),
        decreases s.len() - i,
    {
        let c = s[i];
        assert(s@.take(i + 1).drop_last() =~= s@.take(i as int));
        assert(s@.take(i + 1).last() == c);
        if c == '\n' {
            if cur.len() > 0 && cur[cur.len() - 1] == '\r' {
                cur.pop();
            }
            out.push(cur);
            cur = Vec::new();
        } else {
            cur.push(c);
        }
        i = i + 1;
    }
    assert(s@.take(s.len() as int) =~= s@);
    let ghost parts = nl_split(s@);
    let ghost ended = parts.take(parts.len() - 1).map_values(|l: Seq<char>| strip_cr(l));
    if cur.len() > 0 {
        out.push(cur);
    }
    assert(forall|k: int| 0 <= k < ended.len() ==> ended[k] == strip_cr(parts[k]));
    out
}

/// Where the first `c` in `s` is, told by the index of the first one found.
pub proof fn lemma_find_char(s: Seq<char>, c: char, i: int)
    requires
        0 <= i <= s.len(),
        forall|k: int| 0 <= k < i ==> s[k] != c,
    ensures
        i < s.len() && s[i] == c ==> find_char(s, c) == Some(i),
        i == s.len() ==> find_char(s, c) is None,
    decreases i,
{
    if i > 0 {
        lemma_find_char(s.drop_first(), c, i - 1);
    }
}

/// The index of the first `c` in `s`, if any.
pub fn find_char_index(s: &[char], c: char) -> (r: Option<usize>)
    ensures
        match r {
            Some(i) => i < s.len() && find_char(s@, c) == Some(i as int),
            None => find_char(s@, c) is None,
        },
{
    let mut i: usize = 0;
    while i < s.len()
        invariant
            i <= s.len(),
            forall|k: int| 0 <= k < i ==> s@[k] != c,
        decreases s.len() - i,
    {
        if s[i] == c {
            proof {
                lemma_find_char(s@, c, i as int);
            }
            return Some(i);
        }
        i = i + 1;
    }
    proof {
        lemma_find_char(s@, c, i as int);
    }
    None
}

/// `s` split at its first `c`.
pub fn split_once_chars(s: &[char], c: char) -> (r: Option<(Vec<char>, Vec<char>)>)
    ensures
        match r {
            Some((k, v)) => split_once(s@, c) == Some((k@, v@)),
            None => split_once(s@, c) is None,
        },
{
    match find_char_index(s, c) {
        Some(i) => {
            let k = copy_range(s, 0, i);
            let v = copy_range(s, i + 1, s.len());
            assert(k@ =~= s@.take(i as int));
            assert(v@ =~= s@.skip(i + 1));
            Some((k, v))
        },
        None => None,
    }
}

/// Whether `s` starts with `p`.
pub fn starts_with_chars(s: &[char], p: &[char]) -> (r: bool)
    ensures
        r == (p.len() <= s.len() && s@.take(p.len() as int) == p@),
{
    if p.len() > s.len() {
        return false;
    }
    let r = chars_eq(&s[0..p.len()], p);
    assert(s@.subrange(0, p.len() as int) =~= s@.take(p.len() as int));
    r
}

/// Whether `s` ends with `p`.
pub fn ends_with_chars(s: &[char], p: &[char]) -> (r: bool)
    ensures
        r == (p.len() <= s.len() && s@.skip(s.len() - p.len()) == p@),
{
    if p.len() > s.len() {
        return false;
    }
    let r = chars_eq(&s[s.len() - p.len()..s.len()], p);
    assert(s@.subrange(s.len() - p.len(), s.len() as int) =~= s@.skip(s.len() - p.len()));
    r
}

/// A longer run of digits never writes a smaller number.
pub proof fn lemma_decimal_value_prefix(s: Seq<char>, k: int)
    requires
        0 <= k <= s.len(),
    ensures
        decimal_value(s.take(k)) <= decimal_value(s),
    decreases s.len() - k,
{
    if k < s.len() {
        lemma_decimal_value_prefix(s.drop_last(), k);
        assert(s.drop_last().take(k) =~= s.take(k));
    } else {
        assert(s.take(k) =~= s);
    }
}

/// `s` read as a `u64`, the way `str::parse::<u64>` reads it.
pub fn parse_u64_chars(s: &[char]) -> (r: Option<u64>)
    ensures
        r == parse_u64(s@),
{
    let start: usize = if s.len() > 0 && s[0] == '+' {
        1
    } else {
        0
    };
    let ghost d = s@.skip(start as int);
    assert(d =~= (if s@.len() > 0 && s@[0] == '+' {
        s@.drop_first()
    } else {
        s@
    }));
    if start >= s.len() {
        return None;
    }
    let mut v: u64 = 0;
    let mut i: usize = start;
    assert(s@.subrange(start as int, start as int) =~= Seq::<char>::empty());
    while i < s.len()
        invariant
            start <= i <= s.len(),
            start < s.len(),
            d == s@.skip(start as int),
            d == (if s@.len() > 0 && s@[0] == '+' {
                s@.drop_first()
            } else {
                s@
            }),
            all_digits(s@.subrange(start as int, i as int)),
            v == decimal_value(s@.subrange(start as int, i as int)),
        decreases s.len() - i,
    {
        let c = s[i];
        let u = c as u32;
        assert(d[i - start] == c);
        if u < 48 || u > 57 {
            assert(!is_digit(d[i - start]));
            return None;
        }
        let ghost prefix = s@.subrange(start as int, i + 1);
        assert(prefix.drop_last() =~= s@.subrange(start as int, i as int));
        assert(prefix =~= d.take(i + 1 - start));
        let dv = (u - 48) as u64;
        match v.checked_mul(10) {
            Some(m) => match m.checked_add(dv) {
                Some(n) => {
                    v = n;
                },
                None => {
                    proof {
                        if all_digits(d) {
                            lemma_decimal_value_prefix(d, i + 1 - start);
                        }
                    }
                    return None;
                },
            },
            None => {
                proof {
                    if all_digits(d) {
                        lemma_decimal_value_prefix(d, i + 1 - start);
                    }
                }
                return None;
            },
        }
        i = i + 1;
        assert(all_digits(s@.subrange(start as int, i as int)));
    }
    assert(s@.subrange(start as int, s.len() as int) =~= d);
    Some(v)
}

/// Appends the shortest decimal digits of `n` to `out`.
pub fn push_decimal(n: u64, out: &mut Vec<char>)
    ensures
        final(out)@ == old(out)@ + decimal_digits(n as nat),
    decreases n,
{
    if n >= 10 {
        push_decimal(n / 10, out);
    }
    let d = (n % 10) as u8;
    out.push((d + 48) as char);
    assert(final(out)@ =~= old(out)@ + decimal_digits(n as nat));
}

/// Appends the characters of `t` to `out`.
pub fn append_chars(out: &mut Vec<char>, t: &[char])
    ensures
        final(out)@ == old(out)@ + t@,
{
    let mut j: usize = 0;
    while j < t.len()
        invariant
            j <= t.len(),
            out@ == old(out)@ + t@.take(j as int),
        decreases t.len() - j,
    {
        out.push(t[j]);
        j = j + 1;
        assert(out@ =~= old(out)@ + t@.take(j as int));
    }
    assert(t@.take(t.len() as int) =~= t@);
}

/// Whether `t` occurs in `s`.
pub fn contains_chars(s: &[char], t: &[char]) -> (r: bool)
    ensures
        r == contains_seq(s@, t@),
{
    if t.len() > s.len() {
        return false;
    }
    let last = s.len() - t.len();
    let mut i: usize = 0;
    loop
        invariant
            last == s.len() - t.len(),
            i <= last,
            forall|k: int| 0 <= k < i ==> !occurs_at(s@, t@, k),
        decreases last - i,
    {
        if chars_eq(&s[i..i + t.len()], t) {
            assert(occurs_at(s@, t@, i as int));
            return true;
        }
        if i == last {
            return false;
        }
        i = i + 1;
    }
}

/// `s` with every non-overlapping occurrence of `from`, leftmost first, replaced by `to`.
pub fn replace_chars(s: &[char], from: &[char], to: &[char]) -> (r: Vec<char>)
    requires
        from.len() > 0,
    ensures
        r@ == replace_all(s@, from@, to@),
{
    let mut out: Vec<char> = Vec::new();
    let mut i: usize = 0;
    assert(s@.skip(0) =~= s@);
    assert(out@ + s@ =~= s@);
    while i < s.len()
        invariant
            i <= s.len(),
            from@.len() > 0,
            out@ + replace_all(s@.skip(i as int), from@, to@) == replace_all(s@, from@, to@),
        decreases s.len() - i,
    {
        let ghost rest = s@.skip(i as int);
        let ghost out0 = out@;
        if from.len() <= s.len() - i && chars_eq(&s[i..i + from.len()], from) {
            assert(rest.subrange(0, from.len() as int) =~= s@.subrange(
                i as int,
                i + from.len(),
            ));
            assert(occurs_at(rest, from@, 0));
            assert(rest.skip(from.len() as int) =~= s@.skip(i + from.len()));
            append_chars(&mut out, to);
            let ghost tail = replace_all(s@.skip(i + from.len()), from@, to@);
            assert((out0 + to@) + tail =~= out0 + (to@ + tail));
            i = i + from.len();
        } else {
            assert(!occurs_at(rest, from@, 0)) by {
                if i + from.len() <= s.len() {
                    assert(rest.subrange(0, from.len() as int) =~= s@.subrange(
                        i as int,
                        i + from.len(),
                    ));
                }
            }
            assert(rest.drop_first() =~= s@.skip(i + 1));
            out.push(s[i]);
            let ghost tail = replace_all(s@.skip(i + 1), from@, to@);
            assert(out0.push(s@[i as int]) + tail =~= out0 + (seq![rest[0]] + tail));
            i = i + 1;
        }
    }
    assert(s@.skip(i as int) =~= Seq::<char>::empty());
    assert(out@ + Seq::<char>::empty() =~= out@);
    out
}

} // verus!

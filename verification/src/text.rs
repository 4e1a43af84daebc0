//! Texts as sequences of characters: white space and trimming, searching,
//! and numbers and truth values in their written form.

use vstd::prelude::*;

verus! {

/// The code points with the Unicode property `White_Space`.
pub open spec fn is_whitespace(c: char) -> bool {
    let n = c as u32;
    ||| 0x09 <= n <= 0x0D
    ||| n == 0x20
    ||| n == 0x85
    ||| n == 0xA0
    ||| n == 0x1680
    ||| 0x2000 <= n <= 0x200A
    ||| n == 0x2028
    ||| n == 0x2029
    ||| n == 0x202F
    ||| n == 0x205F
    ||| n == 0x3000
}

/// `s` without its leading white space.
pub open spec fn trim_start(s: Seq<char>) -> Seq<char>
    decreases s.len(),
{
    if s.len() > 0 && is_whitespace(s[0]) {
        trim_start(s.drop_first())
    } else {
        s
    }
}

/// `s` without its trailing white space.
pub open spec fn trim_end(s: Seq<char>) -> Seq<char>
    decreases s.len(),
{
    if s.len() > 0 && is_whitespace(s.last()) {
        trim_end(s.drop_last())
    } else {
        s
    }
}

/// `s` without leading and trailing white space.
pub open spec fn trim(s: Seq<char>) -> Seq<char> {
    trim_end(trim_start(s))
}

/// True when `s` neither starts nor ends with white space.
pub open spec fn is_trimmed(s: Seq<char>) -> bool {
    s.len() > 0 ==> !is_whitespace(s[0]) && !is_whitespace(s.last())
}

/// The position of the first `c` in `s`, or the length of `s` if there is none.
pub open spec fn index_of(s: Seq<char>, c: char) -> int
    decreases s.len(),
{
    if s.len() == 0 || s[0] == c {
        0
    } else {
        1 + index_of(s.drop_first(), c)
    }
}

/// The characters of a text that may be missing.
pub open spec fn text_of(o: Option<String>) -> Option<Seq<char>> {
    match o {
        Some(s) => Some(s@),
        None => None,
    }
}

/// True when `word` occurs in `s` at position `i`.
pub open spec fn occurs_at(s: Seq<char>, word: Seq<char>, i: int) -> bool {
    0 <= i && i + word.len() <= s.len() && s.subrange(i, i + word.len()) == word
}

/// True when `word` occurs somewhere in `s`.
pub open spec fn contains(s: Seq<char>, word: Seq<char>) -> bool {
    exists|i: int| occurs_at(s, word, i)
}

/// Leading white space ends at the first character that is none.
proof fn lemma_trim_start(s: Seq<char>, a: int)
    requires
        0 <= a <= s.len(),
        forall|i: int| 0 <= i < a ==> is_whitespace(s[i]),
        a < s.len() ==> !is_whitespace(s[a]),
    ensures
        trim_start(s) == s.subrange(a, s.len() as int),
    decreases a,
{
    if a == 0 {
        assert(s.subrange(0, s.len() as int) =~= s);
    } else {
        let rest = s.drop_first();
        assert forall|i: int| 0 <= i < a - 1 implies is_whitespace(rest[i]) by {
            assert(rest[i] == s[i + 1]);
        }
        lemma_trim_start(rest, a - 1);
        assert(rest.subrange(a - 1, rest.len() as int) =~= s.subrange(a, s.len() as int));
    }
}

/// Trailing white space begins after the last character that is none.
proof fn lemma_trim_end(s: Seq<char>, b: int)
    requires
        0 <= b <= s.len(),
        forall|i: int| b <= i < s.len() ==> is_whitespace(s[i]),
        b > 0 ==> !is_whitespace(s[b - 1]),
    ensures
        trim_end(s) == s.subrange(0, b),
    decreases s.len() - b,
{
    if b == s.len() {
        assert(s.subrange(0, b) =~= s);
    } else {
        let rest = s.drop_last();
        lemma_trim_end(rest, b);
        assert(rest.subrange(0, b) =~= s.subrange(0, b));
    }
}

/// Trimming keeps exactly the part between the first and the last character
/// that is not white space.
pub proof fn lemma_trim_is_subrange(s: Seq<char>, a: int, b: int)
    requires
        0 <= a <= b <= s.len(),
        forall|i: int| 0 <= i < a ==> is_whitespace(s[i]),
        forall|i: int| b <= i < s.len() ==> is_whitespace(s[i]),
        a < s.len() ==> !is_whitespace(s[a]),
        b > a ==> !is_whitespace(s[b - 1]),
    ensures
        trim(s) == s.subrange(a, b),
{
    lemma_trim_start(s, a);
    let t = s.subrange(a, s.len() as int);
    lemma_trim_end(t, b - a);
    assert(t.subrange(0, b - a) =~= s.subrange(a, b));
}

/// A sequence that neither starts nor ends with white space is its own trim.
pub proof fn lemma_trim_of_trimmed(s: Seq<char>)
    requires
        is_trimmed(s),
    ensures
        trim(s) == s,
{
    lemma_trim_is_subrange(s, 0, s.len() as int);
    assert(s.subrange(0, s.len() as int) =~= s);
}

/// What `trim` returns neither starts nor ends with white space, and holds no
/// character that `s` does not hold.
pub proof fn lemma_trim_properties(s: Seq<char>)
    ensures
        is_trimmed(trim(s)),
        trim(trim(s)) == trim(s),
        exists|a: int, b: int| 0 <= a <= b <= s.len() && trim(s) == #[trigger] s.subrange(a, b),
{
    lemma_trim_bounds_of(s);
    let (a, b) = trim_bounds_of(s);
    let t = s.subrange(a, b);
    if t.len() > 0 {
        assert(t[0] == s[a]);
        assert(t.last() == s[b - 1]);
    }
    lemma_trim_of_trimmed(t);
}

/// The bounds of the trimmed part of `s`.
spec fn trim_bounds_of(s: Seq<char>) -> (int, int) {
    let a = first_kept(s, 0);
    let b = last_kept(s, a, s.len() as int);
    (a, b)
}

/// The first position from `from` on that holds no white space.
spec fn first_kept(s: Seq<char>, from: int) -> int
    decreases s.len() - from,
{
    if 0 <= from < s.len() && is_whitespace(s[from]) {
        first_kept(s, from + 1)
    } else {
        from
    }
}

/// The end of the part of `s[low..to]` that is left without its trailing
/// white space.
spec fn last_kept(s: Seq<char>, low: int, to: int) -> int
    decreases to,
{
    if 0 <= low < to <= s.len() && is_whitespace(s[to - 1]) {
        last_kept(s, low, to - 1)
    } else {
        to
    }
}

/// `first_kept` skips white space only, and stops at what is none.
proof fn lemma_first_kept(s: Seq<char>, from: int)
    requires
        0 <= from <= s.len(),
    ensures
        from <= first_kept(s, from) <= s.len(),
        forall|i: int| from <= i < first_kept(s, from) ==> is_whitespace(s[i]),
        first_kept(s, from) < s.len() ==> !is_whitespace(s[first_kept(s, from)]),
    decreases s.len() - from,
{
    if from < s.len() && is_whitespace(s[from]) {
        lemma_first_kept(s, from + 1);
    }
}

/// `last_kept` drops white space only, and stops at what is none.
proof fn lemma_last_kept(s: Seq<char>, low: int, to: int)
    requires
        0 <= low <= to <= s.len(),
    ensures
        low <= last_kept(s, low, to) <= to,
        forall|i: int| last_kept(s, low, to) <= i < to ==> is_whitespace(s[i]),
        last_kept(s, low, to) > low ==> !is_whitespace(s[last_kept(s, low, to) - 1]),
    decreases to,
{
    if low < to && is_whitespace(s[to - 1]) {
        lemma_last_kept(s, low, to - 1);
    }
}

/// The bounds that `trim_bounds_of` names are those of the trimmed part.
proof fn lemma_trim_bounds_of(s: Seq<char>)
    ensures
        0 <= trim_bounds_of(s).0 <= trim_bounds_of(s).1 <= s.len(),
        forall|i: int| 0 <= i < trim_bounds_of(s).0 ==> is_whitespace(s[i]),
        forall|i: int| trim_bounds_of(s).1 <= i < s.len() ==> is_whitespace(s[i]),
        trim_bounds_of(s).0 < s.len() ==> !is_whitespace(s[trim_bounds_of(s).0]),
        trim_bounds_of(s).1 > trim_bounds_of(s).0 ==> !is_whitespace(s[trim_bounds_of(s).1 - 1]),
        trim(s) == s.subrange(trim_bounds_of(s).0, trim_bounds_of(s).1),
{
    lemma_first_kept(s, 0);
    let a = first_kept(s, 0);
    lemma_last_kept(s, a, s.len() as int);
    let b = last_kept(s, a, s.len() as int);
    lemma_trim_is_subrange(s, a, b);
}

/// `index_of` names the first position of `c`, and none before it holds `c`.
pub proof fn lemma_index_of(s: Seq<char>, c: char)
    ensures
        0 <= index_of(s, c) <= s.len(),
        forall|i: int| 0 <= i < index_of(s, c) ==> s[i] != c,
        index_of(s, c) < s.len() ==> s[index_of(s, c)] == c,
    decreases s.len(),
{
    if s.len() == 0 || s[0] == c {
    } else {
        let rest = s.drop_first();
        lemma_index_of(rest, c);
        assert forall|i: int| 0 <= i < index_of(s, c) implies s[i] != c by {
            if i > 0 {
                assert(rest[i - 1] == s[i]);
            }
        }
    }
}

/// The first position of `c` is `k` when `c` stands at `k` and nowhere before.
pub proof fn lemma_index_of_is(s: Seq<char>, c: char, k: int)
    requires
        0 <= k <= s.len(),
        forall|i: int| 0 <= i < k ==> s[i] != c,
        k < s.len() ==> s[k] == c,
    ensures
        index_of(s, c) == k,
{
    lemma_index_of(s, c);
    let j = index_of(s, c);
    if j < k {
        assert(s[j] != c);
    } else if k < j {
        assert(s[k] != c);
    }
}

/// True when `c` is one of the ten decimal digits.
pub open spec fn is_digit(c: char) -> bool {
    0x30 <= c as u32 <= 0x39
}

/// The value of the decimal digit `c`, and 0 for any other character.
pub open spec fn digit_value(c: char) -> nat {
    if is_digit(c) {
        (c as u32 - 0x30) as nat
    } else {
        0
    }
}

/// The decimal digit of value `d`.
pub open spec fn digit_char(d: nat) -> char {
    (0x30 + d) as char
}

/// True when `s` holds decimal digits only.
pub open spec fn all_digits(s: Seq<char>) -> bool {
    forall|i: int| 0 <= i < s.len() ==> is_digit(#[trigger] s[i])
}

/// The number that the digits of `s` denote in base ten.
pub open spec fn decimal_value(s: Seq<char>) -> nat
    decreases s.len(),
{
    if s.len() == 0 {
        0
    } else {
        decimal_value(s.drop_last()) * 10 + digit_value(s.last())
    }
}

/// The digits of `n` in base ten, without leading zeros.
pub open spec fn decimal(n: nat) -> Seq<char>
    decreases n,
{
    if n < 10 {
        seq![digit_char(n)]
    } else {
        decimal(n / 10).push(digit_char(n % 10))
    }
}

/// The unsigned 64-bit number that `s` denotes: an optional `+`, then one or
/// more decimal digits whose value fits; `None` for anything else.
pub open spec fn parse_u64(s: Seq<char>) -> Option<u64> {
    let digits = if s.len() > 0 && s[0] == '+' {
        s.drop_first()
    } else {
        s
    };
    if digits.len() > 0 && all_digits(digits) && decimal_value(digits) <= u64::MAX {
        Some(decimal_value(digits) as u64)
    } else {
        None
    }
}

/// The truth value that `s` denotes: `true` or `false`, spelled exactly so.
pub open spec fn parse_bool(s: Seq<char>) -> Option<bool> {
    if s == "true"@ {
        Some(true)
    } else if s == "false"@ {
        Some(false)
    } else {
        None
    }
}

/// The spelling of a truth value.
pub open spec fn bool_text(b: bool) -> Seq<char> {
    if b {
        "true"@
    } else {
        "false"@
    }
}

/// A prefix of a digit string denotes no more than the whole.
pub proof fn lemma_decimal_value_prefix(s: Seq<char>, k: int)
    requires
        0 <= k <= s.len(),
    ensures
        decimal_value(s.subrange(0, k)) <= decimal_value(s),
    decreases s.len() - k,
{
    if k == s.len() {
        assert(s.subrange(0, k) =~= s);
    } else {
        lemma_decimal_value_prefix(s.drop_last(), k);
        assert(s.drop_last().subrange(0, k) =~= s.subrange(0, k));
    }
}

/// Reading the digits of `n` gives `n` back.
pub proof fn lemma_decimal_round_trip(n: nat)
    ensures
        decimal(n).len() > 0,
        all_digits(decimal(n)),
        decimal_value(decimal(n)) == n,
        forall|i: int| 0 <= i < decimal(n).len() ==> !is_whitespace(#[trigger] decimal(n)[i]),
    decreases n,
{
    if n < 10 {
        let s = decimal(n);
        assert(s.drop_last() =~= Seq::<char>::empty());
        assert(decimal_value(s.drop_last()) == 0);
    } else {
        lemma_decimal_round_trip(n / 10);
        let s = decimal(n);
        assert(s.drop_last() =~= decimal(n / 10));
    }
}

/// Parsing the digits of a 64-bit number gives the number back.
pub proof fn lemma_parse_decimal(n: u64)
    ensures
        parse_u64(decimal(n as nat)) == Some(n),
{
    lemma_decimal_round_trip(n as nat);
    let s = decimal(n as nat);
    assert(is_digit(s[0]));
}

/// The characters of `s`, in order.
pub fn chars_of(s: &str) -> (v: Vec<char>)
    ensures
        v@ == s@,
{
    let mut v: Vec<char> = Vec::new();
    for c in it: s.chars()
        invariant
            v@ == it.seq().take(it.index() as int),
            it.seq() == s@,
    {
        v.push(c);
    }
    v
}

/// The part of `text` from character `from` up to character `to`.
pub fn substring(text: &str, from: usize, to: usize) -> (r: String)
    requires
        from <= to <= text@.len(),
    ensures
        r@ == text@.subrange(from as int, to as int),
{
    text.substring_char(from, to).to_owned()
}

/// Tells whether `c` is white space.
pub fn is_whitespace_char(c: char) -> (r: bool)
    ensures
        r == is_whitespace(c),
{
    let n: u32 = c as u32;
    (0x09 <= n && n <= 0x0D) || n == 0x20 || n == 0x85 || n == 0xA0 || n == 0x1680 || (0x2000 <= n
        && n <= 0x200A) || n == 0x2028 || n == 0x2029 || n == 0x202F || n == 0x205F || n == 0x3000
}

/// The bounds of the trimmed part of `v[from..to]`.
pub fn trim_range(v: &Vec<char>, from: usize, to: usize) -> (r: (usize, usize))
    requires
        from <= to <= v.len(),
    ensures
        from <= r.0 <= r.1 <= to,
        v@.subrange(r.0 as int, r.1 as int) == trim(v@.subrange(from as int, to as int)),
{
    let mut a: usize = from;
    while a < to && is_whitespace_char(v[a])
        invariant
            from <= a <= to <= v.len(),
            forall|i: int| from <= i < a ==> is_whitespace(v@[i]),
        decreases to - a,
    {
        a += 1;
    }
    let mut b: usize = to;
    while b > a && is_whitespace_char(v[b - 1])
        invariant
            a <= b <= to <= v.len(),
            forall|i: int| b <= i < to ==> is_whitespace(v@[i]),
        decreases b,
    {
        b -= 1;
    }
    proof {
        let s = v@.subrange(from as int, to as int);
        lemma_trim_is_subrange(s, a - from, b - from);
        assert(s.subrange(a - from, b - from) =~= v@.subrange(a as int, b as int));
    }
    (a, b)
}

/// The first position of `c` in `v[from..to]`, or `to` if there is none.
pub fn find_char(v: &Vec<char>, from: usize, to: usize, c: char) -> (k: usize)
    requires
        from <= to <= v.len(),
    ensures
        from <= k <= to,
        k - from == index_of(v@.subrange(from as int, to as int), c),
{
    let mut k: usize = from;
    while k < to && v[k] != c
        invariant
            from <= k <= to <= v.len(),
            forall|i: int| from <= i < k ==> v@[i] != c,
        decreases to - k,
    {
        k += 1;
    }
    proof {
        lemma_index_of_is(v@.subrange(from as int, to as int), c, k - from);
    }
    k
}

/// Tells whether `v[from..to]` begins with `word`.
pub fn range_starts_with(v: &Vec<char>, from: usize, to: usize, word: &Vec<char>) -> (r: bool)
    requires
        from <= to <= v.len(),
    ensures
        r == word@.is_prefix_of(v@.subrange(from as int, to as int)),
{
    let n = word.len();
    if n > to - from {
        return false;
    }
    let ghost s = v@.subrange(from as int, to as int);
    let mut i: usize = 0;
    while i < n
        invariant
            i <= n <= to - from,
            from <= to <= v.len(),
            n == word.len(),
            s == v@.subrange(from as int, to as int),
            forall|j: int| 0 <= j < i ==> s[j] == word@[j],
        decreases n - i,
    {
        if v[from + i] != word[i] {
            proof {
                assert(s[i as int] != word@[i as int]);
                assert(s.subrange(0, n as int)[i as int] == s[i as int]);
            }
            return false;
        }
        i += 1;
    }
    proof {
        assert(word@ =~= s.subrange(0, n as int));
    }
    true
}

/// Tells whether `v[from..to]` is `word`.
pub fn range_equals(v: &Vec<char>, from: usize, to: usize, word: &Vec<char>) -> (r: bool)
    requires
        from <= to <= v.len(),
    ensures
        r == (v@.subrange(from as int, to as int) == word@),
{
    let ghost s = v@.subrange(from as int, to as int);
    if word.len() != to - from {
        return false;
    }
    let r = range_starts_with(v, from, to, word);
    proof {
        assert(s.subrange(0, s.len() as int) =~= s);
    }
    r
}

/// Tells whether `word` occurs somewhere in `v`.
pub fn contains_word(v: &Vec<char>, word: &Vec<char>) -> (r: bool)
    ensures
        r == contains(v@, word@),
{
    let n = v.len();
    let m = word.len();
    if m > n {
        proof {
            assert forall|i: int| !occurs_at(v@, word@, i) by {}
        }
        return false;
    }
    let mut i: usize = 0;
    while i <= n - m
        invariant
            m <= n,
            n == v.len(),
            m == word.len(),
            i <= n - m + 1,
            forall|j: int| 0 <= j < i ==> !occurs_at(v@, word@, j),
        decreases n - m + 1 - i,
    {
        if range_starts_with(v, i, n, word) {
            proof {
                let s = v@.subrange(i as int, n as int);
                assert(s.subrange(0, m as int) =~= v@.subrange(i as int, i + m));
                assert(occurs_at(v@, word@, i as int));
            }
            return true;
        }
        proof {
            let s = v@.subrange(i as int, n as int);
            assert(s.subrange(0, m as int) =~= v@.subrange(i as int, i + m));
        }
        i += 1;
    }
    proof {
        assert forall|j: int| !occurs_at(v@, word@, j) by {}
    }
    false
}

/// The one-character text of the decimal digit of value `d`.
fn digit_text(d: u64) -> (r: &'static str)
    requires
        d < 10,
    ensures
        r@ == seq![digit_char(d as nat)],
{
    proof {
        reveal_strlit("0");
        reveal_strlit("1");
        reveal_strlit("2");
        reveal_strlit("3");
        reveal_strlit("4");
        reveal_strlit("5");
        reveal_strlit("6");
        reveal_strlit("7");
        reveal_strlit("8");
        reveal_strlit("9");
    }
    let r = if d == 0 {
        "0"
    } else if d == 1 {
        "1"
    } else if d == 2 {
        "2"
    } else if d == 3 {
        "3"
    } else if d == 4 {
        "4"
    } else if d == 5 {
        "5"
    } else if d == 6 {
        "6"
    } else if d == 7 {
        "7"
    } else if d == 8 {
        "8"
    } else {
        "9"
    };
    assert(r@ =~= seq![digit_char(d as nat)]);
    r
}

/// Appends the decimal digits of `n` to `out`.
pub fn push_decimal(out: &mut String, n: u64)
    ensures
        final(out)@ == old(out)@ + decimal(n as nat),
    decreases n,
{
    if n >= 10 {
        push_decimal(out, n / 10);
    }
    out.append(digit_text(n % 10));
    proof {
        let d = seq![digit_char((n % 10) as nat)];
        if n >= 10 {
            assert(decimal(n as nat) =~= decimal((n / 10) as nat) + d);
            assert(old(out)@ + decimal((n / 10) as nat) + d =~= old(out)@ + (decimal(
                (n / 10) as nat,
            ) + d));
        }
    }
}

/// Reads `v[from..to]` as an unsigned 64-bit decimal number.
pub fn parse_u64_range(v: &Vec<char>, from: usize, to: usize) -> (r: Option<u64>)
    requires
        from <= to <= v.len(),
    ensures
        r == parse_u64(v@.subrange(from as int, to as int)),
{
    let ghost s = v@.subrange(from as int, to as int);
    let mut i: usize = from;
    if i < to && v[i] == '+' {
        i += 1;
    }
    if i >= to {
        return None;
    }
    let start: usize = i;
    let ghost digits = v@.subrange(start as int, to as int);
    proof {
        if start > from {
            assert(s.drop_first() =~= digits);
        } else {
            assert(s =~= digits);
        }
        assert(digits.subrange(0, 0) =~= Seq::<char>::empty());
        assert(digits == if s.len() > 0 && s[0] == '+' {
            s.drop_first()
        } else {
            s
        });
    }
    let mut acc: u64 = 0;
    while i < to
        invariant
            from <= start <= i <= to <= v.len(),
            s == v@.subrange(from as int, to as int),
            digits == v@.subrange(start as int, to as int),
            digits == if s.len() > 0 && s[0] == '+' {
                s.drop_first()
            } else {
                s
            },
            all_digits(digits.subrange(0, i - start)),
            acc == decimal_value(digits.subrange(0, i - start)),
        decreases to - i,
    {
        let n: u32 = v[i] as u32;
        let ghost next = digits.subrange(0, i - start + 1);
        proof {
            assert(next.drop_last() =~= digits.subrange(0, i - start));
            assert(next.last() == v@[i as int]);
            assert(digits[i - start] == v@[i as int]);
        }
        if n < 0x30 || n > 0x39 {
            return None;
        }
        let d: u64 = (n - 0x30) as u64;
        if acc > (u64::MAX - d) / 10 {
            proof {
                assert(decimal_value(next) == acc * 10 + d);
                lemma_decimal_value_prefix(digits, i - start + 1);
            }
            return None;
        }
        acc = acc * 10 + d;
        proof {
            assert forall|j: int| 0 <= j < next.len() implies is_digit(#[trigger] next[j]) by {
                if j < i - start {
                    assert(next[j] == digits.subrange(0, i - start)[j]);
                }
            }
        }
        i += 1;
    }
    proof {
        assert(digits.subrange(0, to - start) =~= digits);
    }
    Some(acc)
}

/// Reads `v[from..to]` as a truth value.
pub fn parse_bool_range(v: &Vec<char>, from: usize, to: usize) -> (r: Option<bool>)
    requires
        from <= to <= v.len(),
    ensures
        r == parse_bool(v@.subrange(from as int, to as int)),
{
    let yes = chars_of("true");
    let no = chars_of("false");
    if range_equals(v, from, to, &yes) {
        Some(true)
    } else if range_equals(v, from, to, &no) {
        Some(false)
    } else {
        None
    }
}

} // verus!

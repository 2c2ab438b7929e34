//! Reading text: lines, words, trimming, searching and ordering.
use vstd::prelude::*;

verus! {

/// A character with the Unicode property `White_Space`.
pub open spec fn is_space(c: char) -> bool {
    let u = c as u32;
    ||| 0x9 <= u <= 0xd
    ||| u == 0x20
    ||| u == 0x85
    ||| u == 0xa0
    ||| u == 0x1680
    ||| 0x2000 <= u <= 0x200a
    ||| u == 0x2028
    ||| u == 0x2029
    ||| u == 0x202f
    ||| u == 0x205f
    ||| u == 0x3000
}

pub fn space(c: char) -> (b: bool)
    ensures
        b == is_space(c),
{
    let u: u32 = c as u32;
    (u >= 0x9 && u <= 0xd) || u == 0x20 || u == 0x85 || u == 0xa0 || u == 0x1680 || (u >= 0x2000
        && u <= 0x200a) || u == 0x2028 || u == 0x2029 || u == 0x202f || u == 0x205f || u == 0x3000
}

/// A text without the spaces before and after it.
pub open spec fn trimmed(s: Seq<char>) -> Seq<char>
    decreases s.len(),
{
    if s.len() == 0 {
        s
    } else if is_space(s[0]) {
        trimmed(s.skip(1))
    } else if is_space(s.last()) {
        trimmed(s.drop_last())
    } else {
        s
    }
}

/// The part of a text between two places.
pub fn part(s: &str, from: usize, to: usize) -> (r: String)
    requires
        from <= to <= s@.len(),
    ensures
        r@ == s@.subrange(from as int, to as int),
{
    let mut r: String = String::new();
    let mut i: usize = from;
    assert(r@ =~= s@.subrange(from as int, from as int));
    while i < to
        invariant
            from <= i <= to <= s@.len(),
            r@ == s@.subrange(from as int, i as int),
        decreases to - i,
    {
        r.push(s.get_char(i));
        i = i + 1;
        assert(r@ =~= s@.subrange(from as int, i as int));
    }
    r
}

pub fn trim(s: &str) -> (r: String)
    ensures
        r@ == trimmed(s@),
{
    let n: usize = s.unicode_len();
    let mut from: usize = 0;
    assert(s@.subrange(0, n as int) =~= s@);
    while from < n && space(s.get_char(from))
        invariant
            from <= n == s@.len(),
            trimmed(s@) == trimmed(s@.subrange(from as int, n as int)),
        decreases n - from,
    {
        proof {
            let rest = s@.subrange(from as int, n as int);
            assert(rest.skip(1) =~= s@.subrange(from + 1, n as int));
        }
        from = from + 1;
    }
    let mut to: usize = n;
    while to > from && space(s.get_char(to - 1))
        invariant
            from <= to <= n == s@.len(),
            from < n ==> !is_space(s@[from as int]),
            trimmed(s@) == trimmed(s@.subrange(from as int, to as int)),
        decreases to,
    {
        proof {
            let rest = s@.subrange(from as int, to as int);
            assert(rest[0] == s@[from as int]);
            assert(rest.drop_last() =~= s@.subrange(from as int, to - 1));
        }
        to = to - 1;
    }
    proof {
        let rest = s@.subrange(from as int, to as int);
        if rest.len() > 0 {
            assert(rest[0] == s@[from as int]);
            assert(rest.last() == s@[to - 1]);
        }
    }
    part(s, from, to)
}

/// The words of the first `n` characters: those that a space has ended, and the
/// one that is being read.
pub open spec fn words_up_to(s: Seq<char>, n: nat) -> (Seq<Seq<char>>, Seq<char>)
    decreases n,
{
    if n == 0 {
        (Seq::empty(), Seq::empty())
    } else {
        let (done, word) = words_up_to(s, (n - 1) as nat);
        let c = s[n - 1];
        if !is_space(c) {
            (done, word.push(c))
        } else if word.len() == 0 {
            (done, word)
        } else {
            (done.push(word), Seq::empty())
        }
    }
}

/// The words of a text: its longest runs without a space.
pub open spec fn words(s: Seq<char>) -> Seq<Seq<char>> {
    let (done, word) = words_up_to(s, s.len());
    if word.len() == 0 {
        done
    } else {
        done.push(word)
    }
}

/// The texts of a list.
pub open spec fn texts(list: Seq<String>) -> Seq<Seq<char>> {
    Seq::new(list.len(), |i: int| list[i]@)
}

pub fn split_words(s: &str) -> (r: Vec<String>)
    ensures
        texts(r@) == words(s@),
{
    let n: usize = s.unicode_len();
    let mut done: Vec<String> = Vec::new();
    let mut word: String = String::new();
    let mut size: usize = 0;
    let mut i: usize = 0;
    assert(texts(done@) =~= Seq::<Seq<char>>::empty());
    assert(word@ =~= Seq::<char>::empty());
    while i < n
        invariant
            i <= n == s@.len(),
            size <= i,
            size == word@.len(),
            (texts(done@), word@) == words_up_to(s@, i as nat),
        decreases n - i,
    {
        let c: char = s.get_char(i);
        let ghost before = done@;
        if !space(c) {
            word.push(c);
            size = size + 1;
        } else if size > 0 {
            let ghost ended = word@;
            done.push(word);
            assert(texts(done@) =~= texts(before).push(ended));
            word = String::new();
            assert(word@ =~= Seq::<char>::empty());
            size = 0;
        }
        i = i + 1;
    }
    if size > 0 {
        let ghost before = done@;
        let ghost ended = word@;
        done.push(word);
        assert(texts(done@) =~= texts(before).push(ended));
    }
    done
}

/// A line without the carriage return before its end.
pub open spec fn uncarried(s: Seq<char>) -> Seq<char> {
    if s.len() > 0 && s.last() == '\r' {
        s.drop_last()
    } else {
        s
    }
}

/// The lines of the first `n` characters: those that were ended, and the one
/// that is being read.
pub open spec fn lines_up_to(s: Seq<char>, n: nat) -> (Seq<Seq<char>>, Seq<char>)
    decreases n,
{
    if n == 0 {
        (Seq::empty(), Seq::empty())
    } else {
        let (done, line) = lines_up_to(s, (n - 1) as nat);
        if s[n - 1] == '\n' {
            (done.push(uncarried(line)), Seq::empty())
        } else {
            (done, line.push(s[n - 1]))
        }
    }
}

/// The lines of a text. The last one need not be ended.
pub open spec fn lines(s: Seq<char>) -> Seq<Seq<char>> {
    let (done, line) = lines_up_to(s, s.len());
    if line.len() == 0 {
        done
    } else {
        done.push(line)
    }
}

pub fn split_lines(s: &str) -> (r: Vec<String>)
    ensures
        texts(r@) == lines(s@),
{
    let n: usize = s.unicode_len();
    let mut done: Vec<String> = Vec::new();
    let mut from: usize = 0;
    let mut i: usize = 0;
    assert(texts(done@) =~= Seq::<Seq<char>>::empty());
    assert(s@.subrange(0, 0) =~= Seq::<char>::empty());
    while i < n
        invariant
            from <= i <= n == s@.len(),
            (texts(done@), s@.subrange(from as int, i as int)) == lines_up_to(s@, i as nat),
        decreases n - i,
    {
        let c: char = s.get_char(i);
        let ghost line = s@.subrange(from as int, i as int);
        if c == '\n' {
            let to: usize = if i > from && s.get_char(i - 1) == '\r' {
                i - 1
            } else {
                i
            };
            let ghost before = done@;
            assert(s@.subrange(from as int, to as int) =~= uncarried(line));
            done.push(part(s, from, to));
            assert(texts(done@) =~= texts(before).push(uncarried(line)));
            from = i + 1;
            assert(s@.subrange(from as int, i + 1) =~= Seq::<char>::empty());
        } else {
            assert(s@.subrange(from as int, i + 1) =~= line.push(c));
        }
        i = i + 1;
    }
    if from < n {
        let ghost before = done@;
        done.push(part(s, from, n));
        assert(texts(done@) =~= texts(before).push(s@.subrange(from as int, n as int)));
    }
    done
}

/// Where a character first stands.
pub fn find_char(s: &str, c: char) -> (r: Option<usize>)
    ensures
        match r {
            Some(i) => i < s@.len() && s@[i as int] == c && forall|k: int|
                0 <= k < i ==> s@[k] != c,
            None => forall|k: int| 0 <= k < s@.len() ==> s@[k] != c,
        },
{
    let n: usize = s.unicode_len();
    let mut i: usize = 0;
    while i < n
        invariant
            i <= n == s@.len(),
            forall|k: int| 0 <= k < i ==> s@[k] != c,
        decreases n - i,
    {
        if s.get_char(i) == c {
            return Some(i);
        }
        i = i + 1;
    }
    None
}

/// Whether a text ends with another.
pub open spec fn ends_with(s: Seq<char>, suffix: Seq<char>) -> bool {
    suffix.len() <= s.len() && s.subrange(s.len() - suffix.len(), s.len() as int) == suffix
}

pub fn has_suffix(s: &str, suffix: &str) -> (b: bool)
    ensures
        b == ends_with(s@, suffix@),
{
    let n: usize = s.unicode_len();
    let m: usize = suffix.unicode_len();
    if n < m {
        return false;
    }
    let tail: String = part(s, n - m, n);
    crate::text::same_text(tail.as_str(), suffix)
}

/// A text without a plus sign before it.
pub open spec fn unsigned(s: Seq<char>) -> Seq<char> {
    if s.len() > 0 && s[0] == '+' {
        s.skip(1)
    } else {
        s
    }
}

/// A number in decimal: at least one digit, and nothing else.
pub open spec fn all_digits(d: Seq<char>) -> bool {
    d.len() > 0 && forall|i: int| 0 <= i < d.len() ==> '0' <= #[trigger] d[i] <= '9'
}

/// What decimal digits stand for.
pub open spec fn digits_value(d: Seq<char>) -> nat
    decreases d.len(),
{
    if d.len() == 0 {
        0
    } else {
        (digits_value(d.drop_last()) * 10 + (d.last() as nat - '0' as nat)) as nat
    }
}

/// The number that a text stands for: decimal digits, with an optional plus
/// sign before them.
pub open spec fn number_of(s: Seq<char>) -> Option<nat> {
    if all_digits(unsigned(s)) {
        Some(digits_value(unsigned(s)))
    } else {
        None
    }
}

/// Read a number. `None` for anything but a number, and for one that does not
/// fit.
pub fn parse_u64(s: &str) -> (r: Option<u64>)
    ensures
        match r {
            Some(n) => number_of(s@) == Some(n as nat),
            None => number_of(s@) matches Some(n) ==> n > u64::MAX,
        },
{
    let n: usize = s.unicode_len();
    let from: usize = if n > 0 && s.get_char(0) == '+' {
        1
    } else {
        0
    };
    let ghost d = unsigned(s@);
    if from == n {
        return None;
    }
    let mut value: u64 = 0;
    let mut fits: bool = true;
    let mut i: usize = from;
    assert(d.take(0) =~= Seq::<char>::empty());
    while i < n
        invariant
            from <= i <= n == s@.len(),
            from <= 1,
            d == unsigned(s@),
            d.len() == n - from,
            d == s@.skip(from as int),
            forall|k: int| 0 <= k < i - from ==> '0' <= #[trigger] d[k] <= '9',
            fits ==> value == digits_value(d.take(i - from)),
            !fits ==> digits_value(d.take(i - from)) > u64::MAX,
        decreases n - i,
    {
        let c: char = s.get_char(i);
        assert(d[i - from] == c);
        if c < '0' || c > '9' {
            return None;
        }
        let digit: u64 = (c as u32 - 0x30) as u64;
        proof {
            assert(d.take(i + 1 - from).drop_last() =~= d.take(i - from));
            assert(d.take(i + 1 - from).last() == c);
        }
        if fits {
            if value > (u64::MAX - digit) / 10 {
                fits = false;
            } else {
                value = value * 10 + digit;
            }
        }
        i = i + 1;
    }
    assert(d.take(n - from) =~= d);
    if fits {
        Some(value)
    } else {
        None
    }
}

/// Whether one text comes before another, character by character.
pub open spec fn precedes(a: Seq<char>, b: Seq<char>) -> bool
    decreases a.len(),
{
    if b.len() == 0 {
        false
    } else if a.len() == 0 {
        true
    } else if a[0] != b[0] {
        a[0] < b[0]
    } else {
        precedes(a.skip(1), b.skip(1))
    }
}

pub fn text_precedes(a: &str, b: &str) -> (r: bool)
    ensures
        r == precedes(a@, b@),
{
    let n: usize = a.unicode_len();
    let m: usize = b.unicode_len();
    let mut i: usize = 0;
    assert(a@.skip(0) =~= a@);
    assert(b@.skip(0) =~= b@);
    while i < n && i < m
        invariant
            i <= n == a@.len(),
            i <= m == b@.len(),
            precedes(a@, b@) == precedes(a@.skip(i as int), b@.skip(i as int)),
        decreases n - i,
    {
        let c: char = a.get_char(i);
        let d: char = b.get_char(i);
        if c != d {
            return c < d;
        }
        assert(a@.skip(i as int).skip(1) =~= a@.skip(i + 1));
        assert(b@.skip(i as int).skip(1) =~= b@.skip(i + 1));
        i = i + 1;
    }
    i < m
}

/// The order is a strict, total one.
pub proof fn lemma_order(a: Seq<char>, b: Seq<char>, c: Seq<char>)
    ensures
        !precedes(a, a),
        precedes(a, b) ==> !precedes(b, a),
        precedes(a, b) && precedes(b, c) ==> precedes(a, c),
        !precedes(a, b) && !precedes(b, a) ==> a == b,
    decreases a.len(),
{
    if a.len() > 0 && b.len() > 0 && c.len() > 0 {
        lemma_order(a.skip(1), b.skip(1), c.skip(1));
    } else if a.len() > 0 && b.len() > 0 {
        lemma_order(a.skip(1), b.skip(1), c);
    } else if a.len() > 0 {
        lemma_order(a.skip(1), b, c);
    }
    if a.len() > 0 && b.len() > 0 && a[0] == b[0] && a.skip(1) == b.skip(1) {
        assert(a =~= seq![a[0]] + a.skip(1));
        assert(b =~= seq![b[0]] + b.skip(1));
    }
    if a.len() == 0 && b.len() == 0 {
        assert(a =~= b);
    }
}

} // verus!

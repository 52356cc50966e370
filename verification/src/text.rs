//! Character-level helpers on strings: whitespace trimming, substring search,
//! the last non-blank line of a text, decimal rendering of integers, and the
//! order of texts.

use vstd::prelude::*;

verus! {

/// Whether `c` has the Unicode `White_Space` property.
pub open spec fn is_white_space(c: char) -> bool {
    ||| '\u{9}' <= c <= '\u{d}'
    ||| c == ' '
    ||| c == '\u{85}'
    ||| c == '\u{a0}'
    ||| c == '\u{1680}'
    ||| '\u{2000}' <= c <= '\u{200a}'
    ||| c == '\u{2028}'
    ||| c == '\u{2029}'
    ||| c == '\u{202f}'
    ||| c == '\u{205f}'
    ||| c == '\u{3000}'
}

/// Number of whitespace characters at the start of `s`.
pub open spec fn leading_white_space(s: Seq<char>) -> nat
    decreases s.len(),
{
    if s.len() > 0 && is_white_space(s[0]) {
        1 + leading_white_space(s.drop_first())
    } else {
        0
    }
}

/// Number of whitespace characters at the end of `s`.
pub open spec fn trailing_white_space(s: Seq<char>) -> nat
    decreases s.len(),
{
    if s.len() > 0 && is_white_space(s.last()) {
        1 + trailing_white_space(s.drop_last())
    } else {
        0
    }
}

/// `s` without its leading and trailing whitespace.
pub open spec fn trimmed(s: Seq<char>) -> Seq<char> {
    let rest = s.skip(leading_white_space(s) as int);
    rest.take(rest.len() - trailing_white_space(rest))
}

/// Whether every character of `s` is whitespace (true of the empty text).
pub open spec fn is_blank(s: Seq<char>) -> bool {
    forall|i: int| 0 <= i < s.len() ==> is_white_space(#[trigger] s[i])
}

/// Whether `needle` stands in `hay` at offset `at`.
pub open spec fn occurs_at(hay: Seq<char>, needle: Seq<char>, at: int) -> bool {
    &&& 0 <= at
    &&& at + needle.len() <= hay.len()
    &&& hay.subrange(at, at + needle.len()) == needle
}

/// Whether `needle` occurs somewhere in `hay`.
pub open spec fn contains(hay: Seq<char>, needle: Seq<char>) -> bool {
    exists|at: int| occurs_at(hay, needle, at)
}

/// Index of the last line feed in `s`, or -1 when it has none.
pub open spec fn last_line_feed(s: Seq<char>) -> int
    decreases s.len(),
{
    if s.len() == 0 {
        -1
    } else if s.last() == '\n' {
        s.len() - 1
    } else {
        last_line_feed(s.drop_last())
    }
}

/// The last line of `s` that is not blank, trimmed; empty when every line is
/// blank. Lines end at a line feed; a carriage return before it is whitespace
/// and so is trimmed away with the rest.
pub open spec fn last_nonblank_line(s: Seq<char>) -> Seq<char>
    decreases s.len(),
{
    let cut = last_line_feed(s);
    let line = trimmed(s.skip(cut + 1));
    if line.len() > 0 {
        line
    } else if 0 <= cut < s.len() {
        last_nonblank_line(s.take(cut))
    } else {
        Seq::empty()
    }
}

/// Whether `c` is one of the ten decimal digits.
pub open spec fn is_digit(c: char) -> bool {
    '0' <= c <= '9'
}

pub open spec fn all_digits(s: Seq<char>) -> bool {
    forall|i: int| 0 <= i < s.len() ==> is_digit(#[trigger] s[i])
}

/// The number that the digit `c` stands for.
pub open spec fn digit_value(c: char) -> nat
    recommends
        is_digit(c),
{
    if c == '1' {
        1
    } else if c == '2' {
        2
    } else if c == '3' {
        3
    } else if c == '4' {
        4
    } else if c == '5' {
        5
    } else if c == '6' {
        6
    } else if c == '7' {
        7
    } else if c == '8' {
        8
    } else if c == '9' {
        9
    } else {
        0
    }
}

/// The number that a run of digits spells.
pub open spec fn digits_value(s: Seq<char>) -> nat
    decreases s.len(),
{
    if s.len() == 0 {
        0
    } else {
        digits_value(s.drop_last()) * 10 + digit_value(s.last())
    }
}

/// The number that `s` spells, if it is made of digits and nothing else.
pub open spec fn unsigned_value(s: Seq<char>) -> Option<nat> {
    if s.len() > 0 && all_digits(s) {
        Some(digits_value(s))
    } else {
        None
    }
}

/// The character of the decimal digit `d`.
pub open spec fn digit_char(d: nat) -> char
    recommends
        d < 10,
{
    if d == 0 {
        '0'
    } else if d == 1 {
        '1'
    } else if d == 2 {
        '2'
    } else if d == 3 {
        '3'
    } else if d == 4 {
        '4'
    } else if d == 5 {
        '5'
    } else if d == 6 {
        '6'
    } else if d == 7 {
        '7'
    } else if d == 8 {
        '8'
    } else {
        '9'
    }
}

/// `n` written in decimal, without leading zeros.
pub open spec fn decimal(n: nat) -> Seq<char>
    decreases n,
{
    if n < 10 {
        seq![digit_char(n)]
    } else {
        decimal(n / 10).push(digit_char(n % 10))
    }
}

/// `i` written in decimal, with a minus sign when negative.
pub open spec fn signed_decimal(i: int) -> Seq<char> {
    if i < 0 {
        seq!['-'] + decimal((-i) as nat)
    } else {
        decimal(i as nat)
    }
}

pub proof fn lemma_leading_white_space(s: Seq<char>)
    ensures
        leading_white_space(s) <= s.len(),
        forall|i: int| 0 <= i < leading_white_space(s) ==> is_white_space(#[trigger] s[i]),
        leading_white_space(s) < s.len() ==> !is_white_space(s[leading_white_space(s) as int]),
    decreases s.len(),
{
    if s.len() > 0 && is_white_space(s[0]) {
        let rest = s.drop_first();
        lemma_leading_white_space(rest);
        assert forall|i: int| 0 <= i < leading_white_space(s) implies is_white_space(
            #[trigger] s[i],
        ) by {
            if i > 0 {
                assert(s[i] == rest[i - 1]);
            }
        }
        if leading_white_space(s) < s.len() {
            assert(s[leading_white_space(s) as int] == rest[leading_white_space(rest) as int]);
        }
    }
}

pub proof fn lemma_trailing_white_space(s: Seq<char>)
    ensures
        trailing_white_space(s) <= s.len(),
        forall|i: int|
            s.len() - trailing_white_space(s) <= i < s.len() ==> is_white_space(#[trigger] s[i]),
        trailing_white_space(s) < s.len() ==> !is_white_space(
            s[s.len() - trailing_white_space(s) - 1],
        ),
    decreases s.len(),
{
    if s.len() > 0 && is_white_space(s.last()) {
        let rest = s.drop_last();
        lemma_trailing_white_space(rest);
        assert forall|i: int|
            s.len() - trailing_white_space(s) <= i < s.len() implies is_white_space(
            #[trigger] s[i],
        ) by {
            if i < s.len() - 1 {
                assert(s[i] == rest[i]);
            }
        }
        if trailing_white_space(s) < s.len() {
            assert(s[s.len() - trailing_white_space(s) - 1] == rest[rest.len()
                - trailing_white_space(rest) - 1]);
        }
    }
}

/// A run of whitespace at the start of `s`, ended by the end of `s` or by a
/// character that is not whitespace, is all of its leading whitespace.
pub proof fn lemma_leading_white_space_is(s: Seq<char>, n: int)
    requires
        0 <= n <= s.len(),
        forall|i: int| 0 <= i < n ==> is_white_space(#[trigger] s[i]),
        n < s.len() ==> !is_white_space(s[n]),
    ensures
        leading_white_space(s) == n,
    decreases n,
{
    if n > 0 {
        let rest = s.drop_first();
        assert forall|i: int| 0 <= i < n - 1 implies is_white_space(#[trigger] rest[i]) by {
            assert(rest[i] == s[i + 1]);
        }
        if n - 1 < rest.len() {
            assert(rest[n - 1] == s[n]);
        }
        lemma_leading_white_space_is(rest, n - 1);
    }
}

/// The mirror image of `lemma_leading_white_space_is` for the end of `s`.
pub proof fn lemma_trailing_white_space_is(s: Seq<char>, n: int)
    requires
        0 <= n <= s.len(),
        forall|i: int| s.len() - n <= i < s.len() ==> is_white_space(#[trigger] s[i]),
        n < s.len() ==> !is_white_space(s[s.len() - n - 1]),
    ensures
        trailing_white_space(s) == n,
    decreases n,
{
    if n > 0 {
        let rest = s.drop_last();
        assert forall|i: int| rest.len() - (n - 1) <= i < rest.len() implies is_white_space(
            #[trigger] rest[i],
        ) by {
            assert(rest[i] == s[i]);
        }
        if n - 1 < rest.len() {
            assert(rest[rest.len() - (n - 1) - 1] == s[s.len() - n - 1]);
        }
        lemma_trailing_white_space_is(rest, n - 1);
    }
}

/// Trimming yields the stretch of `s` between its first and its last
/// character that is not whitespace.
pub proof fn lemma_trimmed_is_subrange(s: Seq<char>, from: int, to: int)
    requires
        0 <= from <= to <= s.len(),
        forall|i: int| 0 <= i < from ==> is_white_space(#[trigger] s[i]),
        forall|i: int| to <= i < s.len() ==> is_white_space(#[trigger] s[i]),
        from < to ==> !is_white_space(s[from]) && !is_white_space(s[to - 1]),
        from == to ==> to == s.len(),
    ensures
        trimmed(s) == s.subrange(from, to),
{
    lemma_leading_white_space_is(s, from);
    let rest = s.skip(from);
    let n = s.len() - to;
    assert forall|i: int| rest.len() - n <= i < rest.len() implies is_white_space(
        #[trigger] rest[i],
    ) by {
        assert(rest[i] == s[i + from]);
    }
    if n < rest.len() {
        assert(rest[rest.len() - n - 1] == s[to - 1]);
    }
    lemma_trailing_white_space_is(rest, n);
    assert(rest.take(rest.len() - n) =~= s.subrange(from, to));
}

/// What trimming leaves neither starts nor ends with whitespace, and what it
/// takes away is whitespace only: the text is whitespace, then the trimmed
/// text, then whitespace.
pub proof fn lemma_trimmed_is_tight(s: Seq<char>)
    ensures
        trimmed(s).len() > 0 ==> !is_white_space(trimmed(s).first()) && !is_white_space(
            trimmed(s).last(),
        ),
        exists|before: Seq<char>, after: Seq<char>|
            is_blank(before) && is_blank(after) && s == before + trimmed(s) + after,
{
    lemma_leading_white_space(s);
    let from = leading_white_space(s) as int;
    let rest = s.skip(from);
    lemma_trailing_white_space(rest);
    let kept = rest.len() - trailing_white_space(rest);
    let before = s.take(from);
    let after = rest.skip(kept);
    assert forall|i: int| 0 <= i < after.len() implies is_white_space(#[trigger] after[i]) by {
        assert(after[i] == rest[i + kept]);
    }
    assert(s =~= before + trimmed(s) + after);
    if trimmed(s).len() > 0 {
        assert(trimmed(s).first() == s[from]);
        assert(trimmed(s).last() == rest[kept - 1]);
    }
}

/// A text is blank exactly when trimming leaves nothing of it.
pub proof fn lemma_blank_iff_trimmed_empty(s: Seq<char>)
    ensures
        is_blank(s) <==> trimmed(s).len() == 0,
{
    lemma_leading_white_space(s);
    let from = leading_white_space(s) as int;
    let rest = s.skip(from);
    lemma_trailing_white_space(rest);
    if is_blank(s) {
        if from < s.len() {
            assert(is_white_space(s[from]));
        }
    }
    if trimmed(s).len() == 0 {
        assert forall|i: int| 0 <= i < s.len() implies is_white_space(#[trigger] s[i]) by {
            if i >= from {
                assert(s[i] == rest[i - from]);
            }
        }
    }
}

/// The characters of `s`, for indexed access.
pub fn to_chars(s: &str) -> (chars: Vec<char>)
    ensures
        chars@ == s@,
{
    let mut chars: Vec<char> = Vec::new();
    for c in it: s.chars()
        invariant
            it.seq() == s@,
            chars@ == it.seq().take(it.index() as int),
    {
        chars.push(c);
    }
    chars
}

/// Whether two texts hold the same characters.
pub fn same_text(a: &str, b: &str) -> (same: bool)
    ensures
        same == (a@ == b@),
{
    a.to_owned() == b.to_owned()
}

pub fn is_whitespace_char(c: char) -> (white: bool)
    ensures
        white == is_white_space(c),
{
    ('\u{9}' <= c && c <= '\u{d}') || c == ' ' || c == '\u{85}' || c == '\u{a0}' || c == '\u{1680}'
        || ('\u{2000}' <= c && c <= '\u{200a}') || c == '\u{2028}' || c == '\u{2029}' || c
        == '\u{202f}' || c == '\u{205f}' || c == '\u{3000}'
}

/// The bounds, within `chars[from..to]`, of what trimming that stretch leaves.
pub fn trim_bounds(chars: &Vec<char>, from: usize, to: usize) -> (bounds: (usize, usize))
    requires
        from <= to <= chars.len(),
    ensures
        from <= bounds.0 <= bounds.1 <= to,
        chars@.subrange(bounds.0 as int, bounds.1 as int) == trimmed(
            chars@.subrange(from as int, to as int),
        ),
{
    let ghost s = chars@.subrange(from as int, to as int);
    let mut start: usize = from;
    while start < to && is_whitespace_char(chars[start])
        invariant
            from <= start <= to <= chars.len(),
            forall|i: int| from <= i < start ==> is_white_space(#[trigger] chars@[i]),
        decreases to - start,
    {
        start += 1;
    }
    let mut end: usize = to;
    while end > start && is_whitespace_char(chars[end - 1])
        invariant
            from <= start <= end <= to <= chars.len(),
            forall|i: int| end <= i < to ==> is_white_space(#[trigger] chars@[i]),
        decreases end - start,
    {
        end -= 1;
    }
    proof {
        let a = start - from;
        let b = if start == end {
            s.len() as int
        } else {
            end - from
        };
        assert forall|i: int| 0 <= i < a implies is_white_space(#[trigger] s[i]) by {
            assert(s[i] == chars@[i + from]);
        }
        assert forall|i: int| b <= i < s.len() implies is_white_space(#[trigger] s[i]) by {
            assert(s[i] == chars@[i + from]);
        }
        if start == end {
            // every character from `start` on is whitespace, so the whole
            // stretch is: its leading whitespace reaches the end
            assert forall|i: int| 0 <= i < s.len() implies is_white_space(#[trigger] s[i]) by {
                assert(s[i] == chars@[i + from]);
            }
            lemma_trimmed_is_subrange(s, s.len() as int, s.len() as int);
            assert(s.subrange(s.len() as int, s.len() as int) =~= chars@.subrange(
                start as int,
                end as int,
            ));
        } else {
            assert(s[a] == chars@[start as int]);
            assert(s[b - 1] == chars@[end - 1]);
            lemma_trimmed_is_subrange(s, a, b);
            assert(s.subrange(a, b) =~= chars@.subrange(start as int, end as int));
        }
    }
    (start, end)
}

/// `s` without its leading and trailing whitespace.
pub fn trim(s: &str) -> (t: &str)
    ensures
        t@ == trimmed(s@),
{
    let chars = to_chars(s);
    let (from, to) = trim_bounds(&chars, 0, chars.len());
    assert(chars@.subrange(0, chars.len() as int) =~= chars@);
    s.substring_char(from, to)
}

/// The decimal rendering of a number holds digits only.
pub proof fn lemma_decimal_is_digits(n: nat)
    ensures
        decimal(n).len() > 0,
        forall|i: int| 0 <= i < decimal(n).len() ==> '0' <= #[trigger] decimal(n)[i] <= '9',
    decreases n,
{
    if n >= 10 {
        lemma_decimal_is_digits(n / 10);
    }
}

/// Reading a number back from its decimal rendering gives the number.
pub proof fn lemma_decimal_reads_back(n: nat)
    ensures
        unsigned_value(decimal(n)) == Some(n),
    decreases n,
{
    lemma_decimal_is_digits(n);
    if n < 10 {
        assert(decimal(n).drop_last() =~= Seq::<char>::empty());
        assert(digits_value(decimal(n).drop_last()) == 0);
    } else {
        lemma_decimal_reads_back(n / 10);
        assert(decimal(n).drop_last() =~= decimal(n / 10));
        assert(decimal(n).last() == digit_char(n % 10));
    }
}

/// The last line feed of `s` is a line feed of `s`, or -1.
pub proof fn lemma_last_line_feed(s: Seq<char>)
    ensures
        -1 <= last_line_feed(s) < s.len(),
        last_line_feed(s) >= 0 ==> s[last_line_feed(s)] == '\n',
    decreases s.len(),
{
    if s.len() > 0 && s.last() != '\n' {
        lemma_last_line_feed(s.drop_last());
        let at = last_line_feed(s.drop_last());
        if at >= 0 {
            assert(s.drop_last()[at] == s[at]);
        }
    }
}

/// A text has a non-blank line exactly when it is not blank.
pub proof fn lemma_no_nonblank_line_iff_blank(s: Seq<char>)
    ensures
        last_nonblank_line(s).len() == 0 <==> is_blank(s),
    decreases s.len(),
{
    lemma_last_line_feed(s);
    let cut = last_line_feed(s);
    let tail = s.skip(cut + 1);
    lemma_blank_iff_trimmed_empty(tail);
    if trimmed(tail).len() > 0 {
        let i = choose|i: int| 0 <= i < tail.len() && !is_white_space(#[trigger] tail[i]);
        assert(tail[i] == s[i + cut + 1]);
    } else if cut < 0 {
        assert(tail =~= s);
    } else {
        let head = s.take(cut);
        lemma_no_nonblank_line_iff_blank(head);
        if is_blank(head) {
            assert forall|i: int| 0 <= i < s.len() implies is_white_space(#[trigger] s[i]) by {
                if i < cut {
                    assert(s[i] == head[i]);
                } else if i > cut {
                    assert(s[i] == tail[i - cut - 1]);
                }
            }
        } else {
            let i = choose|i: int| 0 <= i < head.len() && !is_white_space(#[trigger] head[i]);
            assert(head[i] == s[i]);
        }
    }
}

/// Where the last line feed of `s` is, given one place that holds a line feed
/// (or none, `at == -1`) with no line feed after it.
pub proof fn lemma_last_line_feed_is(s: Seq<char>, at: int)
    requires
        -1 <= at < s.len(),
        at >= 0 ==> s[at] == '\n',
        forall|i: int| at < i < s.len() ==> #[trigger] s[i] != '\n',
    ensures
        last_line_feed(s) == at,
    decreases s.len(),
{
    if s.len() > 0 && at < s.len() - 1 {
        let rest = s.drop_last();
        assert(s[s.len() - 1] != '\n');
        assert forall|i: int| at < i < rest.len() implies #[trigger] rest[i] != '\n' by {
            assert(rest[i] == s[i]);
        }
        lemma_last_line_feed_is(rest, at);
    }
}

/// Whether `needle` stands in `hay` at `at`.
pub fn matches_at(hay: &Vec<char>, at: usize, needle: &Vec<char>) -> (hit: bool)
    requires
        at + needle.len() <= hay.len(),
    ensures
        hit == (hay@.subrange(at as int, at + needle.len()) == needle@),
{
    let mut k: usize = 0;
    while k < needle.len()
        invariant
            k <= needle.len(),
            at + needle.len() <= hay.len(),
            forall|j: int| 0 <= j < k ==> hay@[at + j] == needle@[j],
        decreases needle.len() - k,
    {
        if hay[at + k] != needle[k] {
            assert(hay@.subrange(at as int, at + needle.len())[k as int] == hay@[at + k]);
            return false;
        }
        k += 1;
    }
    assert(hay@.subrange(at as int, at + needle.len()) =~= needle@);
    true
}

/// Whether `needle` occurs in `hay[from..to]`.
pub fn chars_contain(hay: &Vec<char>, from: usize, to: usize, needle: &Vec<char>) -> (found: bool)
    requires
        from <= to <= hay.len(),
    ensures
        found == contains(hay@.subrange(from as int, to as int), needle@),
{
    let ghost window = hay@.subrange(from as int, to as int);
    if needle.len() > to - from {
        return false;
    }
    let last: usize = to - needle.len();
    let mut at: usize = from;
    loop
        invariant
            from <= at <= last,
            last + needle.len() == to,
            to <= hay.len(),
            window == hay@.subrange(from as int, to as int),
            forall|i: int| 0 <= i < at - from ==> !occurs_at(window, needle@, i),
        decreases last - at,
    {
        let hit = matches_at(hay, at, needle);
        assert(window.subrange(at - from, at - from + needle.len()) =~= hay@.subrange(
            at as int,
            at + needle.len(),
        ));
        if hit {
            assert(occurs_at(window, needle@, at - from));
            return true;
        }
        if at == last {
            return false;
        }
        at += 1;
    }
}

/// Whether `needle` occurs somewhere in `hay`.
pub fn str_contains(hay: &str, needle: &str) -> (found: bool)
    ensures
        found == contains(hay@, needle@),
{
    let h = to_chars(hay);
    let n = to_chars(needle);
    assert(h@.subrange(0, h.len() as int) =~= h@);
    chars_contain(&h, 0, h.len(), &n)
}

/// The bounds within `chars` of its last line that is not blank, trimmed.
pub fn last_nonblank_line_bounds(chars: &Vec<char>) -> (bounds: (usize, usize))
    ensures
        bounds.0 <= bounds.1 <= chars.len(),
        chars@.subrange(bounds.0 as int, bounds.1 as int) == last_nonblank_line(chars@),
{
    let mut end: usize = chars.len();
    assert(chars@.take(end as int) =~= chars@);
    loop
        invariant
            end <= chars.len(),
            last_nonblank_line(chars@) == last_nonblank_line(chars@.take(end as int)),
        decreases end,
    {
        let ghost s = chars@.take(end as int);
        let mut start: usize = end;
        while start > 0 && chars[start - 1] != '\n'
            invariant
                start <= end <= chars.len(),
                forall|i: int| start <= i < end ==> #[trigger] chars@[i] != '\n',
            decreases start,
        {
            start -= 1;
        }
        let (from, to) = trim_bounds(chars, start, end);
        proof {
            assert forall|i: int| start - 1 < i < s.len() implies #[trigger] s[i] != '\n' by {
                assert(s[i] == chars@[i]);
            }
            lemma_last_line_feed_is(s, start - 1);
            assert(s.skip(start as int) =~= chars@.subrange(start as int, end as int));
        }
        if from < to {
            return (from, to);
        }
        if start == 0 {
            assert(chars@.subrange(0, 0) =~= Seq::<char>::empty());
            return (0, 0);
        }
        proof {
            assert(s.take(start - 1) =~= chars@.take(start - 1));
        }
        end = start - 1;
    }
}

/// The text of one decimal digit.
pub fn digit_text(d: u8) -> (t: &'static str)
    requires
        d < 10,
    ensures
        t@ == seq![digit_char(d as nat)],
{
    proof {
        reveal_strlit("0");
        reveal_strlit("1");
        reveal_strlit("2");
        reveal_strlit("3");
        reveal_strlit("4");
        reveal_strlit("5");
        reveal_strlit("6");
        reveal_strlit("7");
        reveal_strlit("8");
        reveal_strlit("9");
    }
    let t = if d == 0 {
        "0"
    } else if d == 1 {
        "1"
    } else if d == 2 {
        "2"
    } else if d == 3 {
        "3"
    } else if d == 4 {
        "4"
    } else if d == 5 {
        "5"
    } else if d == 6 {
        "6"
    } else if d == 7 {
        "7"
    } else if d == 8 {
        "8"
    } else {
        "9"
    };
    assert(t@ =~= seq![digit_char(d as nat)]);
    t
}

/// Appends `n`, in decimal, to `out`.
pub fn push_decimal(out: &mut String, n: u64)
    ensures
        final(out)@ == old(out)@ + decimal(n as nat),
    decreases n,
{
    if n >= 10 {
        push_decimal(out, n / 10);
    }
    let d: u8 = (n % 10) as u8;
    out.append(digit_text(d));
    proof {
        if n >= 10 {
            assert(final(out)@ =~= old(out)@ + decimal((n / 10) as nat).push(
                digit_char((n % 10) as nat),
            ));
        } else {
            assert(final(out)@ =~= old(out)@ + seq![digit_char(n as nat)]);
        }
    }
}

/// `n` written in decimal.
pub fn decimal_text(n: u64) -> (t: String)
    ensures
        t@ == decimal(n as nat),
{
    let mut t = String::new();
    push_decimal(&mut t, n);
    assert(t@ =~= decimal(n as nat));
    t
}

/// `i` written in decimal, with a minus sign when negative.
pub fn signed_decimal_text(i: i32) -> (t: String)
    ensures
        t@ == signed_decimal(i as int),
{
    if i < 0 {
        proof {
            reveal_strlit("-");
        }
        let mut t = String::from_str("-");
        let magnitude: u64 = (-(i as i64)) as u64;
        push_decimal(&mut t, magnitude);
        assert("-"@ =~= seq!['-']);
        t
    } else {
        decimal_text(i as u64)
    }
}


pub fn is_digit_char(c: char) -> (digit: bool)
    ensures
        digit == is_digit(c),
{
    '0' <= c && c <= '9'
}

/// A run of digits spells at least what any of its beginnings spells.
pub proof fn lemma_digits_value_grows(s: Seq<char>, k: int)
    requires
        0 <= k <= s.len(),
    ensures
        digits_value(s.take(k)) <= digits_value(s),
    decreases s.len() - k,
{
    if k < s.len() {
        lemma_digits_value_grows(s, k + 1);
        assert(s.take(k + 1).drop_last() =~= s.take(k));
    } else {
        assert(s.take(k) =~= s);
    }
}

/// The number that `text` spells, if it is made of digits and the number
/// fits.
pub fn parse_unsigned(text: &str) -> (value: Option<u64>)
    ensures
        value == match unsigned_value(text@) {
            Some(v) if v <= u64::MAX => Some(v as u64),
            _ => None,
        },
{
    let chars = to_chars(text);
    let len = chars.len();
    if len == 0 {
        return None;
    }
    let mut value: u64 = 0;
    let mut k: usize = 0;
    assert(chars@.take(0) =~= Seq::<char>::empty());
    while k < len
        invariant
            k <= len == chars.len(),
            chars@ == text@,
            len > 0,
            all_digits(chars@.take(k as int)),
            value == digits_value(chars@.take(k as int)),
        decreases len - k,
    {
        let c = chars[k];
        if !is_digit_char(c) {
            assert(!is_digit(chars@[k as int]));
            return None;
        }
        let d: u64 = (c as u32 - '0' as u32) as u64;
        proof {
            assert(chars@.take(k + 1).drop_last() =~= chars@.take(k as int));
            assert(chars@.take(k + 1).last() == c);
            assert forall|i: int| 0 <= i < k + 1 implies is_digit(
                #[trigger] chars@.take(k + 1)[i],
            ) by {
                if i < k {
                    assert(chars@.take(k + 1)[i] == chars@.take(k as int)[i]);
                }
            }
        }
        if value > (u64::MAX - d) / 10 {
            proof {
                lemma_digits_value_grows(chars@, k + 1);
            }
            return None;
        }
        value = value * 10 + d;
        k += 1;
    }
    assert(chars@.take(len as int) =~= chars@);
    Some(value)
}

/// Whether `a` comes before `b` in the order of texts: character by
/// character, by code point, a text before each of its extensions.
pub open spec fn text_before(a: Seq<char>, b: Seq<char>) -> bool
    decreases a.len(),
{
    if b.len() == 0 {
        false
    } else if a.len() == 0 {
        true
    } else if a[0] != b[0] {
        a[0] < b[0]
    } else {
        text_before(a.drop_first(), b.drop_first())
    }
}

/// Whether `a` comes before `b` in the order of texts.
pub fn comes_before(a: &Vec<char>, b: &Vec<char>) -> (before: bool)
    ensures
        before == text_before(a@, b@),
{
    let mut i: usize = 0;
    assert(a@.skip(0) =~= a@ && b@.skip(0) =~= b@);
    loop
        invariant
            i <= a.len(),
            i <= b.len(),
            text_before(a@, b@) == text_before(a@.skip(i as int), b@.skip(i as int)),
        decreases a.len() - i,
    {
        if i >= b.len() {
            return false;
        }
        if i >= a.len() {
            return true;
        }
        assert(a@.skip(i as int)[0] == a@[i as int] && b@.skip(i as int)[0] == b@[i as int]);
        if a[i] != b[i] {
            return a[i] < b[i];
        }
        assert(a@.skip(i as int).drop_first() =~= a@.skip(i + 1));
        assert(b@.skip(i as int).drop_first() =~= b@.skip(i + 1));
        i += 1;
    }
}

/// `text_before` is a strict order: nothing comes before itself, and what
/// comes before something that comes before a third comes before the third.
pub proof fn lemma_text_before_is_strict(a: Seq<char>, b: Seq<char>, c: Seq<char>)
    ensures
        !text_before(a, a),
        text_before(a, b) && text_before(b, c) ==> text_before(a, c),
        !text_before(a, b) && !text_before(b, c) ==> !text_before(a, c),
    decreases a.len(), b.len(),
{
    if a.len() > 0 {
        lemma_text_before_is_strict(a.drop_first(), a.drop_first(), a.drop_first());
    }
    if a.len() > 0 && b.len() > 0 && c.len() > 0 {
        lemma_text_before_is_strict(a.drop_first(), b.drop_first(), c.drop_first());
    }
}

/// What is not after `b`, which is before `c`, is before `c`.
pub proof fn lemma_not_after_then_before(a: Seq<char>, b: Seq<char>, c: Seq<char>)
    requires
        !text_before(b, a),
        text_before(b, c),
    ensures
        text_before(a, c),
    decreases a.len(),
{
    if a.len() > 0 && b.len() > 0 && c.len() > 0 {
        if a[0] == b[0] && b[0] == c[0] {
            lemma_not_after_then_before(a.drop_first(), b.drop_first(), c.drop_first());
        }
    }
}

/// Of two different texts one comes before the other.
pub proof fn lemma_text_before_is_total(a: Seq<char>, b: Seq<char>)
    ensures
        a == b || text_before(a, b) || text_before(b, a),
    decreases a.len(),
{
    if a.len() > 0 && b.len() > 0 {
        if a[0] == b[0] {
            lemma_text_before_is_total(a.drop_first(), b.drop_first());
            if a.drop_first() == b.drop_first() {
                assert(a =~= seq![a[0]] + a.drop_first());
                assert(b =~= seq![b[0]] + b.drop_first());
            }
        }
    } else if a.len() == 0 && b.len() == 0 {
        assert(a =~= b);
    }
}

} // verus!

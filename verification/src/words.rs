//! Words and lists of strings: splitting, joining, replacing, and numbers read from text.

use crate::text;
use vstd::prelude::*;

verus! {

/// What strings hold.
pub open spec fn strings_view(list: Seq<String>) -> Seq<Seq<char>> {
    Seq::new(list.len(), |i: int| list[i]@)
}

/// What pairs of strings hold.
pub open spec fn pairs_view(list: Seq<(String, String)>) -> Seq<(Seq<char>, Seq<char>)> {
    Seq::new(list.len(), |i: int| (list[i].0@, list[i].1@))
}

/// Whether two texts are the same.
pub fn same(a: &str, b: &str) -> (res: bool)
    ensures
        res == (a@ == b@),
{
    a.to_owned() == b.to_owned()
}

/// The characters of a string.
pub fn chars_of(s: &str) -> (res: Vec<char>)
    ensures
        res@ == s@,
{
    let mut out: Vec<char> = Vec::new();
    for c in it: s.chars()
        invariant
            it.seq() == s@,
            out@ == s@.take(it.index() as int),
    {
        out.push(c);
        assert(out@ =~= s@.take(it.index() + 1));
    }
    assert(out@ =~= s@);
    out
}

/// The string of the characters between two positions.
pub fn string_of(chars: &Vec<char>, start: usize, end: usize) -> (res: String)
    requires
        start <= end <= chars@.len(),
    ensures
        res@ == chars@.subrange(start as int, end as int),
{
    let mut out = String::new();
    let mut i: usize = start;
    assert(out@ =~= chars@.subrange(start as int, start as int));
    while i < end
        invariant
            start <= i <= end <= chars@.len(),
            out@ == chars@.subrange(start as int, i as int),
        decreases end - i,
    {
        out.push(chars[i]);
        i = i + 1;
        assert(out@ =~= chars@.subrange(start as int, i as int));
    }
    out
}

/// Whether a character separates words: the characters with the Unicode property `White_Space`.
pub open spec fn is_space(c: char) -> bool {
    let n = c as int;
    ||| 9 <= n <= 13
    ||| n == 0x20
    ||| n == 0x85
    ||| n == 0xA0
    ||| n == 0x1680
    ||| 0x2000 <= n <= 0x200A
    ||| n == 0x2028
    ||| n == 0x2029
    ||| n == 0x202F
    ||| n == 0x205F
    ||| n == 0x3000
}

/// Whether a character separates words.
fn separates(c: char) -> (res: bool)
    ensures
        res == is_space(c),
{
    let n: u32 = c as u32;
    9 <= n && n <= 13 || n == 0x20 || n == 0x85 || n == 0xA0 || n == 0x1680 || 0x2000 <= n && n
        <= 0x200A || n == 0x2028 || n == 0x2029 || n == 0x202F || n == 0x205F || n == 0x3000
}

/// Words that have ended, and the one that has not.
pub open spec fn word_state(s: Seq<char>) -> (Seq<Seq<char>>, Seq<char>)
    decreases s.len(),
{
    if s.len() == 0 {
        (seq![], seq![])
    } else {
        let (done, current) = word_state(s.drop_last());
        if !is_space(s.last()) {
            (done, current.push(s.last()))
        } else if current.len() > 0 {
            (done.push(current), seq![])
        } else {
            (done, seq![])
        }
    }
}

/// The words of a text: its longest runs of characters that do not separate words.
pub open spec fn words_of(s: Seq<char>) -> Seq<Seq<char>> {
    let (done, current) = word_state(s);
    if current.len() > 0 {
        done.push(current)
    } else {
        done
    }
}

/// The words of a text.
pub fn split_words(s: &str) -> (res: Vec<String>)
    ensures
        strings_view(res@) == words_of(s@),
{
    let chars = chars_of(s);
    let mut done: Vec<String> = Vec::new();
    let mut current = String::new();
    let mut some = false;
    let mut i: usize = 0;
    assert(chars@.take(0) =~= Seq::<char>::empty());
    assert(strings_view(done@) =~= Seq::<Seq<char>>::empty());
    assert(current@ =~= Seq::<char>::empty());
    while i < chars.len()
        invariant
            i <= chars@.len(),
            (strings_view(done@), current@) == word_state(chars@.take(i as int)),
            some == (current@.len() > 0),
        decreases chars@.len() - i,
    {
        let c = chars[i];
        proof {
            let next = chars@.take(i + 1);
            assert(next.drop_last() =~= chars@.take(i as int));
            assert(next.last() == c);
        }
        if separates(c) {
            if some {
                let ghost before = strings_view(done@);
                let ghost word = current@;
                done.push(current);
                current = String::new();
                some = false;
                assert(strings_view(done@) =~= before.push(word));
            }
            assert(current@ =~= Seq::<char>::empty());
        } else {
            current.push(c);
            some = true;
        }
        i = i + 1;
    }
    assert(chars@.take(chars@.len() as int) =~= chars@);
    let ghost before = strings_view(done@);
    let ghost word = current@;
    if some {
        done.push(current);
        assert(strings_view(done@) =~= before.push(word));
    }
    done
}

/// Texts joined with a separator between them.
pub open spec fn joined(parts: Seq<Seq<char>>, sep: Seq<char>) -> Seq<char>
    decreases parts.len(),
{
    if parts.len() == 0 {
        seq![]
    } else if parts.len() == 1 {
        parts[0]
    } else {
        joined(parts.drop_last(), sep) + sep + parts.last()
    }
}

/// Joins strings with a separator between them.
pub fn join(parts: &Vec<String>, sep: &str) -> (res: String)
    ensures
        res@ == joined(strings_view(parts@), sep@),
{
    let ghost all = strings_view(parts@);
    let mut out = String::new();
    let mut i: usize = 0;
    assert(out@ =~= joined(all.take(0), sep@));
    while i < parts.len()
        invariant
            i <= parts@.len(),
            all == strings_view(parts@),
            out@ == joined(all.take(i as int), sep@),
        decreases parts@.len() - i,
    {
        proof {
            let next = all.take(i + 1);
            assert(next.drop_last() =~= all.take(i as int));
            assert(next.last() == parts@[i as int]@);
        }
        if i > 0 {
            out.push_str(sep);
        }
        out.push_str(parts[i].as_str());
        i = i + 1;
        assert(out@ =~= joined(all.take(i as int), sep@));
    }
    assert(all.take(all.len() as int) =~= all);
    out
}

/// A text with every occurrence of a character doubled.
pub open spec fn doubled(s: Seq<char>, c: char) -> Seq<char>
    decreases s.len(),
{
    if s.len() == 0 {
        seq![]
    } else if s.last() == c {
        doubled(s.drop_last(), c).push(c).push(c)
    } else {
        doubled(s.drop_last(), c).push(s.last())
    }
}

/// Appends a text with every occurrence of a character doubled.
pub fn push_doubled(out: &mut String, s: &str, c: char)
    ensures
        final(out)@ == old(out)@ + doubled(s@, c),
{
    let chars = chars_of(s);
    let ghost before = out@;
    let mut i: usize = 0;
    assert(out@ =~= before + doubled(chars@.take(0), c));
    while i < chars.len()
        invariant
            i <= chars@.len(),
            out@ == before + doubled(chars@.take(i as int), c),
        decreases chars@.len() - i,
    {
        let x = chars[i];
        proof {
            let next = chars@.take(i + 1);
            assert(next.drop_last() =~= chars@.take(i as int));
            assert(next.last() == x);
        }
        out.push(x);
        if x == c {
            out.push(x);
        }
        i = i + 1;
        assert(out@ =~= before + doubled(chars@.take(i as int), c));
    }
    assert(chars@.take(chars@.len() as int) =~= chars@);
}

/// Texts that are the same with a character doubled are the same.
pub proof fn doubled_injective(a: Seq<char>, b: Seq<char>, c: char)
    requires
        doubled(a, c) == doubled(b, c),
    ensures
        a == b,
    decreases a.len(),
{
    let p = doubled(a, c);
    let q = doubled(b, c);
    if a.len() == 0 || b.len() == 0 {
        if a.len() > 0 {
            assert(p.len() > 0);
        }
        if b.len() > 0 {
            assert(q.len() > 0);
        }
        assert(a =~= b);
    } else {
        let x = doubled(a.drop_last(), c);
        let y = doubled(b.drop_last(), c);
        assert(p.last() == a.last());
        assert(q.last() == b.last());
        if a.last() == c {
            assert(x =~= p.take(p.len() - 2));
            assert(y =~= q.take(q.len() - 2));
        } else {
            assert(x =~= p.take(p.len() - 1));
            assert(y =~= q.take(q.len() - 1));
        }
        doubled_injective(a.drop_last(), b.drop_last(), c);
        assert(a =~= a.drop_last().push(a.last()));
        assert(b =~= b.drop_last().push(b.last()));
    }
}

/// The position of the first occurrence of a character, or the length.
pub open spec fn first_at(s: Seq<char>, c: char) -> int
    decreases s.len(),
{
    if s.len() == 0 || s[0] == c {
        0
    } else {
        1 + first_at(s.drop_first(), c)
    }
}

/// The first occurrence of a character is one, and none is before it.
pub proof fn first_is_first(s: Seq<char>, c: char)
    ensures
        0 <= first_at(s, c) <= s.len(),
        forall|k: int| 0 <= k < first_at(s, c) ==> s[k] != c,
        first_at(s, c) < s.len() ==> s[first_at(s, c)] == c,
        first_at(s, c) < s.len() <==> s.contains(c),
    decreases s.len(),
{
    if s.len() > 0 && s[0] != c {
        let t = s.drop_first();
        first_is_first(t, c);
        assert forall|k: int| 0 <= k < first_at(s, c) implies s[k] != c by {
            if k > 0 {
                assert(t[k - 1] == s[k]);
            }
        }
        if t.contains(c) {
            let k = choose|k: int| 0 <= k < t.len() && t[k] == c;
            assert(s[k + 1] == c);
        }
        if s.contains(c) {
            let k = choose|k: int| 0 <= k < s.len() && s[k] == c;
            assert(t[k - 1] == c);
        }
    }
}

/// A position at which a character stands, with none before it, is the first.
proof fn first_at_is(s: Seq<char>, c: char, n: int)
    requires
        0 <= n <= s.len(),
        forall|k: int| 0 <= k < n ==> s[k] != c,
        n < s.len() ==> s[n] == c,
    ensures
        first_at(s, c) == n,
{
    first_is_first(s, c);
    let m = first_at(s, c);
    if m < n {
        assert(s[m] != c);
    } else if n < m {
        assert(s[n] != c);
    }
}

/// The position of the first occurrence of a character, or the length.
pub fn find_first(chars: &Vec<char>, c: char) -> (res: usize)
    ensures
        res == first_at(chars@, c),
        res <= chars@.len(),
{
    let mut i: usize = 0;
    while i < chars.len() && chars[i] != c
        invariant
            i <= chars@.len(),
            forall|k: int| 0 <= k < i ==> chars@[k] != c,
        decreases chars@.len() - i,
    {
        i = i + 1;
    }
    proof {
        first_at_is(chars@, c, i as int);
    }
    i
}

/// The position after the last occurrence of a character; zero if there is none.
pub open spec fn after_last(s: Seq<char>, c: char) -> int
    decreases s.len(),
{
    if s.len() == 0 {
        0
    } else if s.last() == c {
        s.len() as int
    } else {
        after_last(s.drop_last(), c)
    }
}

/// A position after an occurrence of a character, with none from there on, is the one after the
/// last.
pub proof fn after_last_is(s: Seq<char>, c: char, n: int)
    requires
        0 < n <= s.len(),
        s[n - 1] == c,
        !s.skip(n).contains(c),
    ensures
        after_last(s, c) == n,
    decreases s.len(),
{
    if n < s.len() {
        let t = s.drop_last();
        assert(s.skip(n).last() == s.last());
        assert(s.skip(n).contains(s.last()));
        assert forall|k: int| 0 <= k < t.skip(n).len() implies t.skip(n)[k] != c by {
            assert(t.skip(n)[k] == s.skip(n)[k]);
            assert(s.skip(n).contains(s.skip(n)[k]));
        }
        after_last_is(t, c, n);
    }
}

/// The position after the last occurrence of a character; zero if there is none.
pub fn find_after_last(chars: &Vec<char>, c: char) -> (res: usize)
    ensures
        res == after_last(chars@, c),
        res <= chars@.len(),
        res > 0 ==> chars@[res - 1] == c,
{
    let mut i: usize = chars.len();
    assert(chars@.take(i as int) =~= chars@);
    while i > 0 && chars[i - 1] != c
        invariant
            i <= chars@.len(),
            after_last(chars@, c) == after_last(chars@.take(i as int), c),
        decreases i,
    {
        proof {
            let s = chars@.take(i as int);
            assert(s.drop_last() =~= chars@.take(i - 1));
            assert(s.last() == chars@[i - 1]);
        }
        i = i - 1;
    }
    proof {
        let s = chars@.take(i as int);
        if i > 0 {
            assert(s.last() == chars@[i - 1]);
        }
    }
    i
}

/// Whether a text starts with another one.
pub open spec fn starts_with(s: Seq<char>, prefix: Seq<char>) -> bool {
    prefix.len() <= s.len() && s.take(prefix.len() as int) == prefix
}

/// Whether a text starts with another one.
pub fn has_prefix(chars: &Vec<char>, prefix: &str) -> (res: bool)
    ensures
        res == starts_with(chars@, prefix@),
{
    let want = chars_of(prefix);
    if want.len() > chars.len() {
        return false;
    }
    let mut i: usize = 0;
    while i < want.len()
        invariant
            i <= want@.len() <= chars@.len(),
            want@ == prefix@,
            chars@.take(i as int) == prefix@.take(i as int),
        decreases want@.len() - i,
    {
        if chars[i] != want[i] {
            assert(chars@.take(want@.len() as int)[i as int] == chars@[i as int]);
            return false;
        }
        i = i + 1;
        assert(chars@.take(i as int) =~= prefix@.take(i as int));
    }
    assert(prefix@.take(want@.len() as int) =~= prefix@);
    true
}

/// A text without the newlines at its end.
pub open spec fn without_newlines(s: Seq<char>) -> Seq<char>
    decreases s.len(),
{
    if s.len() > 0 && s.last() == '\n' {
        without_newlines(s.drop_last())
    } else {
        s
    }
}

/// Removes the newlines at the end of a text.
pub fn trim_newlines(s: &str) -> (res: String)
    ensures
        res@ == without_newlines(s@),
{
    let chars = chars_of(s);
    let mut end: usize = chars.len();
    assert(chars@.take(end as int) =~= s@);
    while end > 0 && chars[end - 1] == '\n'
        invariant
            end <= chars@.len(),
            without_newlines(chars@.take(end as int)) == without_newlines(s@),
        decreases end,
    {
        assert(chars@.take(end as int).drop_last() =~= chars@.take(end - 1));
        end = end - 1;
    }
    let res = string_of(&chars, 0, end);
    assert(res@ =~= chars@.take(end as int));
    res
}

/// A line without the carriage return at its end.
pub open spec fn without_return(line: Seq<char>) -> Seq<char> {
    if line.len() > 0 && line.last() == '\r' {
        line.drop_last()
    } else {
        line
    }
}

/// The lines of a text, without what ends them: a newline, which a carriage return may precede. The
/// last line may lack its end.
pub open spec fn lines_of(s: Seq<char>) -> Seq<Seq<char>>
    decreases s.len(),
{
    let n = first_at(s, '\n');
    if s.len() == 0 {
        seq![]
    } else if !(0 <= n < s.len()) {
        seq![s]
    } else {
        seq![without_return(s.take(n))] + lines_of(s.skip(n + 1))
    }
}

/// Splits a text into lines.
pub fn split_lines(s: &str) -> (res: Vec<String>)
    ensures
        strings_view(res@) == lines_of(s@),
{
    let chars = chars_of(s);
    let mut lines: Vec<String> = Vec::new();
    let mut start: usize = 0;
    let mut i: usize = 0;
    assert(strings_view(lines@) + lines_of(chars@.skip(0)) =~= lines_of(s@)) by {
        assert(chars@.skip(0) =~= s@);
    }
    while i < chars.len()
        invariant
            start <= i <= chars@.len(),
            chars@ == s@,
            forall|k: int| start <= k < i ==> chars@[k] != '\n',
            strings_view(lines@) + lines_of(chars@.skip(start as int)) == lines_of(s@),
        decreases chars@.len() - i,
    {
        if chars[i] == '\n' {
            let ghost rest = chars@.skip(start as int);
            let ghost line = rest.take(i - start);
            let ghost before = strings_view(lines@);
            let end: usize = if i > start && chars[i - 1] == '\r' {
                i - 1
            } else {
                i
            };
            let text = string_of(&chars, start, end);
            proof {
                first_at_is(rest, '\n', i - start);
                assert(text@ =~= without_return(line));
                assert(rest.skip(i - start + 1) =~= chars@.skip(i + 1));
            }
            lines.push(text);
            assert(strings_view(lines@) =~= before.push(text@));
            assert(strings_view(lines@) + lines_of(chars@.skip(i + 1)) =~= before + lines_of(rest));
            start = i + 1;
        }
        i = i + 1;
    }
    let ghost rest = chars@.skip(start as int);
    if start < chars.len() {
        let ghost before = strings_view(lines@);
        let text = string_of(&chars, start, chars.len());
        proof {
            first_at_is(rest, '\n', rest.len() as int);
            assert(text@ =~= rest);
        }
        lines.push(text);
        assert(strings_view(lines@) =~= before + lines_of(rest));
    } else {
        assert(lines_of(rest) =~= Seq::<Seq<char>>::empty());
        assert(strings_view(lines@) + lines_of(rest) =~= strings_view(lines@));
    }
    lines
}

/// Whether a text consists of decimal digits, at least one.
pub open spec fn all_digits(s: Seq<char>) -> bool {
    s.len() > 0 && forall|i: int| 0 <= i < s.len() ==> text::is_digit_char(#[trigger] s[i])
}

/// The digits of a number in a text, which may start with a plus sign.
pub open spec fn unsigned_digits(s: Seq<char>) -> Seq<char> {
    if s.len() > 0 && s[0] == '+' {
        s.skip(1)
    } else {
        s
    }
}

/// The port that a text denotes: a number that fits in 16 bits.
pub open spec fn port_of(s: Seq<char>) -> Option<u16> {
    let digits = unsigned_digits(s);
    if all_digits(digits) && text::decimal_value(digits) <= u16::MAX {
        Some(text::decimal_value(digits) as u16)
    } else {
        None
    }
}

/// More digits denote no smaller number.
proof fn decimal_grows(s: Seq<char>, n: int)
    requires
        0 <= n <= s.len(),
        forall|i: int| 0 <= i < s.len() ==> text::is_digit_char(#[trigger] s[i]),
    ensures
        text::decimal_value(s.take(n)) <= text::decimal_value(s),
    decreases s.len(),
{
    if n == s.len() {
        assert(s.take(n) =~= s);
    } else {
        let t = s.drop_last();
        assert forall|i: int| 0 <= i < t.len() implies text::is_digit_char(#[trigger] t[i]) by {
            assert(t[i] == s[i]);
        }
        decimal_grows(t, n);
        assert(t.take(n) =~= s.take(n));
    }
}

/// The value of a decimal digit.
fn digit_value(c: char) -> (res: Option<u32>)
    ensures
        match res {
            Some(d) => text::is_digit_char(c) && d == c as int - 48,
            None => !text::is_digit_char(c),
        },
{
    let code: u32 = c as u32;
    if code < 48 || code > 57 {
        None
    } else {
        Some(code - 48)
    }
}

/// Reads a port number.
pub fn parse_port(s: &str) -> (res: Option<u16>)
    ensures
        res == port_of(s@),
{
    let chars = chars_of(s);
    let start: usize = if chars.len() > 0 && chars[0] == '+' {
        1
    } else {
        0
    };
    let ghost digits = unsigned_digits(s@);
    assert(digits =~= chars@.skip(start as int));
    let mut value: u32 = 0;
    let mut i: usize = start;
    assert(digits.take(0) =~= Seq::<char>::empty());
    while i < chars.len()
        invariant
            start <= i <= chars@.len(),
            digits == unsigned_digits(s@),
            digits == chars@.skip(start as int),
            value <= u16::MAX,
            value == text::decimal_value(digits.take(i - start)),
            forall|k: int| 0 <= k < i - start ==> text::is_digit_char(#[trigger] digits[k]),
        decreases chars@.len() - i,
    {
        assert(digits[i - start] == chars@[i as int]);
        let digit: u32 = match digit_value(chars[i]) {
            Some(d) => d,
            None => {
                assert(!text::is_digit_char(digits[i - start]));
                return None;
            },
        };
        proof {
            let next = digits.take(i - start + 1);
            assert(next.drop_last() =~= digits.take(i - start));
            assert(next.last() == chars@[i as int]);
        }
        value = value * 10 + digit;
        if value > u16::MAX as u32 {
            proof {
                if all_digits(digits) {
                    decimal_grows(digits, i - start + 1);
                }
            }
            return None;
        }
        i = i + 1;
    }
    assert(digits.take(i - start) =~= digits);
    if i == start {
        return None;
    }
    Some(value as u16)
}

/// The digits at the front of a text.
pub open spec fn leading_digits(s: Seq<char>) -> Seq<char>
    decreases s.len(),
{
    if s.len() == 0 || !text::is_digit_char(s[0]) {
        seq![]
    } else {
        seq![s[0]] + leading_digits(s.drop_first())
    }
}

/// Why a text denotes no port: it is empty, the digits at its front are too much for 16 bits, or it
/// holds something that is no digit.
pub open spec fn port_error(s: Seq<char>) -> Seq<char> {
    if s.len() == 0 {
        "cannot parse integer from empty string"@
    } else if text::decimal_value(leading_digits(unsigned_digits(s))) > u16::MAX {
        "number too large to fit in target type"@
    } else {
        "invalid digit found in string"@
    }
}

/// The leading digits are digits, and go on after any number of digits at the front.
proof fn leading_digits_split(s: Seq<char>, n: int)
    requires
        0 <= n <= s.len(),
        forall|i: int| 0 <= i < n ==> text::is_digit_char(#[trigger] s[i]),
    ensures
        leading_digits(s) == s.take(n) + leading_digits(s.skip(n)),
        forall|i: int|
            0 <= i < leading_digits(s).len() ==> text::is_digit_char(
                #[trigger] leading_digits(s)[i],
            ),
    decreases s.len(),
{
    if s.len() > 0 && text::is_digit_char(s[0]) {
        let t = s.drop_first();
        let m = if n > 0 {
            n - 1
        } else {
            0
        };
        assert forall|i: int| 0 <= i < m implies text::is_digit_char(#[trigger] t[i]) by {
            assert(t[i] == s[i + 1]);
        }
        leading_digits_split(t, m);
        if n > 0 {
            assert(t.skip(m) =~= s.skip(n));
            assert(seq![s[0]] + t.take(m) =~= s.take(n));
            assert(leading_digits(s) =~= s.take(n) + leading_digits(s.skip(n)));
        }
    }
    if n == 0 {
        assert(s.skip(0) =~= s);
        assert(leading_digits(s) =~= s.take(0) + leading_digits(s.skip(0)));
    }
}

/// Tells why a text denotes no port.
pub fn explain_port(s: &str) -> (res: String)
    ensures
        res@ == port_error(s@),
{
    let chars = chars_of(s);
    if chars.len() == 0 {
        return "cannot parse integer from empty string".to_owned();
    }
    let start: usize = if chars[0] == '+' {
        1
    } else {
        0
    };
    let ghost digits = unsigned_digits(s@);
    assert(digits =~= chars@.skip(start as int));
    let mut value: u32 = 0;
    let mut i: usize = start;
    assert(digits.take(0) =~= Seq::<char>::empty());
    while i < chars.len()
        invariant
            start <= i <= chars@.len(),
            s@.len() > 0,
            digits == unsigned_digits(s@),
            digits == chars@.skip(start as int),
            value <= u16::MAX,
            value == text::decimal_value(digits.take(i - start)),
            forall|k: int| 0 <= k < i - start ==> text::is_digit_char(#[trigger] digits[k]),
        decreases chars@.len() - i,
    {
        assert(digits[i - start] == chars@[i as int]);
        let digit: u32 = match digit_value(chars[i]) {
            Some(d) => d,
            None => {
                proof {
                    leading_digits_split(digits, i - start);
                    assert(digits.skip(i - start)[0] == digits[i - start]);
                    assert(leading_digits(digits) =~= digits.take(i - start));
                }
                return "invalid digit found in string".to_owned();
            },
        };
        proof {
            let next = digits.take(i - start + 1);
            assert(next.drop_last() =~= digits.take(i - start));
            assert(next.last() == chars@[i as int]);
        }
        value = value * 10 + digit;
        if value > u16::MAX as u32 {
            proof {
                leading_digits_split(digits, i - start + 1);
                decimal_grows(leading_digits(digits), i - start + 1);
                assert(leading_digits(digits).take(i - start + 1) =~= digits.take(i - start + 1));
            }
            return "number too large to fit in target type".to_owned();
        }
        i = i + 1;
    }
    proof {
        leading_digits_split(digits, digits.len() as int);
        assert(leading_digits(digits) =~= digits.take(digits.len() as int));
    }
    "invalid digit found in string".to_owned()
}

/// A port written in decimal is read back.
pub proof fn port_roundtrip(port: u16)
    ensures
        port_of(text::decimal(port as nat)) == Some(port),
{
    let s = text::decimal(port as nat);
    text::decimal_roundtrip(port as nat);
    assert(text::is_digit_char(s[0]));
    assert(unsigned_digits(s) == s);
}

/// Words contain no separators and are not empty.
pub proof fn words_are_words(s: Seq<char>)
    ensures
        forall|i: int| 0 <= i < words_of(s).len() ==> is_word(#[trigger] words_of(s)[i]),
{
    state_is_words(s);
}

/// Whether a text is a single word.
pub open spec fn is_word(s: Seq<char>) -> bool {
    s.len() > 0 && forall|k: int| 0 <= k < s.len() ==> !is_space(#[trigger] s[k])
}

proof fn state_is_words(s: Seq<char>)
    ensures
        forall|i: int| 0 <= i < word_state(s).0.len() ==> is_word(#[trigger] word_state(s).0[i]),
        word_state(s).1.len() > 0 ==> is_word(word_state(s).1),
    decreases s.len(),
{
    if s.len() > 0 {
        let (done, current) = word_state(s.drop_last());
        state_is_words(s.drop_last());
        if !is_space(s.last()) {
            let next = current.push(s.last());
            assert forall|k: int| 0 <= k < next.len() implies !is_space(#[trigger] next[k]) by {
                if k < current.len() {
                    assert(!is_space(current[k]));
                }
            }
        }
    }
}

/// A word after a text and a blank.
proof fn state_with_word(s: Seq<char>, word: Seq<char>, n: int)
    requires
        forall|k: int| 0 <= k < word.len() ==> !is_space(#[trigger] word[k]),
        0 <= n <= word.len(),
        word_state(s).1.len() == 0,
    ensures
        word_state(s + word.take(n)) == (word_state(s).0, word.take(n)),
    decreases n,
{
    if n == 0 {
        assert(s + word.take(0) =~= s);
        assert(word_state(s).1 =~= word.take(0));
    } else {
        state_with_word(s, word, n - 1);
        let t = s + word.take(n);
        assert(t.drop_last() =~= s + word.take(n - 1));
        assert(t.last() == word[n - 1]);
        assert(!is_space(word[n - 1]));
        assert(word.take(n) =~= word.take(n - 1).push(word[n - 1]));
    }
}

/// The words of words joined with blanks are these words.
pub proof fn words_of_joined(parts: Seq<Seq<char>>)
    requires
        forall|i: int| 0 <= i < parts.len() ==> is_word(#[trigger] parts[i]),
    ensures
        words_of(joined(parts, seq![' '])) == parts,
        parts.len() > 0 ==> word_state(joined(parts, seq![' '])) == (
            parts.drop_last(),
            parts.last(),
        ),
    decreases parts.len(),
{
    let blank = seq![' '];
    if parts.len() == 1 {
        let w = parts[0];
        assert(is_word(w));
        state_with_word(seq![], w, w.len() as int);
        assert(w.take(w.len() as int) =~= w);
        assert(Seq::<char>::empty() + w =~= w);
        assert(parts.drop_last() =~= Seq::<Seq<char>>::empty());
        assert(words_of(w) =~= parts);
    } else if parts.len() > 1 {
        let init = parts.drop_last();
        assert forall|i: int| 0 <= i < init.len() implies is_word(#[trigger] init[i]) by {
            assert(init[i] == parts[i]);
        }
        words_of_joined(init);
        assert(is_word(init.last())) by {
            assert(init.last() == parts[parts.len() - 2]);
        }
        let head = joined(init, blank);
        let s = head + blank;
        assert(s.drop_last() =~= head);
        assert(s.last() == ' ');
        assert(init.drop_last().push(init.last()) =~= init);
        assert(word_state(s) == (init, Seq::<char>::empty()));
        let w = parts.last();
        assert(is_word(w)) by {
            assert(w == parts[parts.len() - 1]);
        }
        state_with_word(s, w, w.len() as int);
        assert(w.take(w.len() as int) =~= w);
        assert(joined(parts, blank) == s + w);
        assert(words_of(s + w) =~= parts);
    }
}

/// Joined texts are the first one, the separator, and the others joined.
pub proof fn joined_from_front(parts: Seq<Seq<char>>, sep: Seq<char>)
    requires
        parts.len() > 1,
    ensures
        joined(parts, sep) == parts[0] + sep + joined(parts.drop_first(), sep),
    decreases parts.len(),
{
    let init = parts.drop_last();
    let rest = parts.drop_first();
    if parts.len() == 2 {
        assert(init =~= seq![parts[0]]);
        assert(rest =~= seq![parts[1]]);
        assert(joined(init, sep) == parts[0]);
        assert(joined(rest, sep) == parts[1]);
    } else {
        joined_from_front(init, sep);
        assert(init.drop_first() =~= rest.drop_last());
        assert(joined(parts, sep) =~= parts[0] + sep + joined(rest, sep));
    }
}

/// Whether a character is white space in Unicode.
pub open spec fn is_white(c: char) -> bool {
    let n = c as int;
    ||| n == 9 || n == 10 || n == 11 || n == 12 || n == 13 || n == 32
    ||| n == 133 || n == 160 || n == 5760
    ||| 8192 <= n <= 8202
    ||| n == 8232 || n == 8233 || n == 8239 || n == 8287 || n == 12288
}

proof fn separated(a: Seq<char>, c: char, b: Seq<char>)
    requires
        is_space(c),
    ensures
        ({
            let whole = word_state(a + seq![c] + b);
            let tail = word_state(b);
            whole == (words_of(a) + tail.0, tail.1)
        }),
    decreases b.len(),
{
    let s = a + seq![c] + b;
    if b.len() == 0 {
        assert(s.drop_last() =~= a);
        assert(s.last() == c);
        assert(words_of(a) + seq![] =~= words_of(a));
    } else {
        let init = b.drop_last();
        separated(a, c, init);
        assert(s.drop_last() =~= a + seq![c] + init);
        assert(s.last() == b.last());
        let before = word_state(init);
        assert((words_of(a) + before.0).push(before.1) =~= words_of(a) + before.0.push(before.1));
    }
}

/// White space separates words, each character of it, and nothing else does: what stands before and
/// after it is cut into words by itself, and a text without any is one word.
pub proof fn white_space_separates(a: Seq<char>, c: char, b: Seq<char>)
    ensures
        is_white(c) ==> words_of(a + seq![c] + b) == words_of(a) + words_of(b),
        a.len() > 0 && (forall|i: int| 0 <= i < a.len() ==> !is_white(#[trigger] a[i]))
            ==> words_of(a) == seq![a],
{
    if is_white(c) {
        separated(a, c, b);
        let tail = word_state(b);
        assert((words_of(a) + tail.0).push(tail.1) =~= words_of(a) + tail.0.push(tail.1));
    }
    if a.len() > 0 && (forall|i: int| 0 <= i < a.len() ==> !is_white(#[trigger] a[i])) {
        assert(is_word(a)) by {
            assert forall|k: int| 0 <= k < a.len() implies !is_space(#[trigger] a[k]) by {
                assert(!is_white(a[k]));
            }
        }
        let parts = seq![a];
        assert forall|i: int| 0 <= i < parts.len() implies is_word(#[trigger] parts[i]) by {}
        words_of_joined(parts);
        assert(joined(parts, seq![' ']) == a);
    }
}

/// Newlines are removed at the end of a text, all of them and nothing else.
pub proof fn newlines_are_trimmed(s: Seq<char>)
    ensures
        ({
            let kept = without_newlines(s);
            &&& kept.len() <= s.len()
            &&& kept == s.take(kept.len() as int)
            &&& forall|i: int| kept.len() <= i < s.len() ==> #[trigger] s[i] == '\n'
            &&& kept.len() > 0 ==> kept.last() != '\n'
        }),
    decreases s.len(),
{
    if s.len() > 0 && s.last() == '\n' {
        let t = s.drop_last();
        newlines_are_trimmed(t);
        let kept = without_newlines(s);
        assert(kept =~= s.take(kept.len() as int));
        assert forall|i: int| kept.len() <= i < s.len() implies #[trigger] s[i] == '\n' by {
            if i < t.len() {
                assert(t[i] == s[i]);
            }
        }
    } else {
        assert(s.take(s.len() as int) =~= s);
    }
}

/// A line ends with a newline, or with a carriage return and a newline; what follows is cut into
/// lines by itself. A text without a newline is one line, and nothing at all is none.
pub proof fn newlines_end_lines(line: Seq<char>, rest: Seq<char>)
    requires
        !line.contains('\n'),
    ensures
        lines_of(line + seq!['\n'] + rest) == seq![
            if line.len() > 0 && line[line.len() - 1] == '\r' {
                line.take(line.len() - 1)
            } else {
                line
            },
        ] + lines_of(rest),
        line.len() > 0 ==> lines_of(line) == seq![line],
        lines_of(seq![]) == Seq::<Seq<char>>::empty(),
{
    let s = line + seq!['\n'] + rest;
    let n = line.len() as int;
    assert forall|k: int| 0 <= k < n implies s[k] != '\n' by {
        assert(line.contains(line[k]));
    }
    assert(s[n] == '\n');
    first_at_is(s, '\n', n);
    assert(s.take(n) =~= line);
    assert(s.skip(n + 1) =~= rest);
    if n > 0 {
        assert(line.drop_last() =~= line.take(n - 1));
    }
    first_is_first(line, '\n');
}

/// A text is a port if it is a number of at most sixteen bits, written in digits, of which a plus
/// sign may stand in front; anything else in it, or nothing at all, makes it none.
pub proof fn ports_are_numbers(s: Seq<char>, n: nat)
    ensures
        n <= 65535 ==> port_of(text::decimal(n)) == Some(n as u16),
        n <= 65535 ==> port_of(seq!['+'] + text::decimal(n)) == Some(n as u16),
        n > 65535 ==> port_of(text::decimal(n)) is None,
        s.len() == 0 ==> port_of(s) is None,
        (exists|i: int| 0 <= i < s.len() && (#[trigger] s[i] as int) < 48 && !(i == 0 && s[i]
            == '+')) ==> port_of(s) is None,
        (exists|i: int| 0 <= i < s.len() && #[trigger] s[i] as int > 57) ==> port_of(s) is None,
{
    let d = text::decimal(n);
    text::decimal_roundtrip(n);
    assert(text::is_digit_char(d[0]));
    let plus = seq!['+'] + d;
    assert(plus.skip(1) =~= d);
    if s.len() > 0 && port_of(s) is Some {
        let digits = unsigned_digits(s);
        assert forall|i: int| 0 <= i < s.len() implies 48 <= #[trigger] s[i] as int <= 57 || i == 0
            && s[i] == '+' by {
            if s[0] == '+' {
                if i > 0 {
                    assert(digits[i - 1] == s[i]);
                }
            } else {
                assert(digits[i] == s[i]);
            }
        }
    }
}

/// Why a text is no port: it is empty, or its number is too large, or something in it is no digit.
pub proof fn refused_ports_are_explained(n: nat, c: char, rest: Seq<char>)
    ensures
        port_error(seq![]) == "cannot parse integer from empty string"@,
        n > 65535 ==> port_error(text::decimal(n)) == "number too large to fit in target type"@,
        !(48 <= c as int <= 57) && c != '+' ==> port_error(seq![c] + rest)
            == "invalid digit found in string"@,
{
    let d = text::decimal(n);
    text::decimal_roundtrip(n);
    assert(text::is_digit_char(d[0]));
    leading_digits_split(d, d.len() as int);
    assert(d.take(d.len() as int) =~= d);
    assert(d.skip(d.len() as int) =~= seq![]);
    assert(leading_digits(d.skip(d.len() as int)) =~= seq![]);
    assert(leading_digits(d) =~= d);
    let s = seq![c] + rest;
    if !(48 <= c as int <= 57) && c != '+' {
        assert(leading_digits(s) =~= seq![]);
        assert(text::decimal_value(leading_digits(s)) == 0);
    }
}

} // verus!

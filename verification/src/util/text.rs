//! Text: building it, cutting it up and comparing it.
//!
//! A text is modelled by its sequence of characters.

use vstd::prelude::*;

verus! {

/// `String::push`: the character goes to the end of the text.
pub assume_specification[ std::string::String::push ](s: &mut std::string::String, c: char)
    ensures
        final(s)@ == old(s)@.push(c),
;

// ---------------------------------------------------------------------------
// Numbers as text
// ---------------------------------------------------------------------------
/// The decimal digit for `d`, which is below ten.
pub open spec fn digit(d: nat) -> char {
    if d == 0 {
        '0'
    } else if d == 1 {
        '1'
    } else if d == 2 {
        '2'
    } else if d == 3 {
        '3'
    } else if d == 4 {
        '4'
    } else if d == 5 {
        '5'
    } else if d == 6 {
        '6'
    } else if d == 7 {
        '7'
    } else if d == 8 {
        '8'
    } else {
        '9'
    }
}

/// `n` in decimal, without leading zeros.
pub open spec fn decimal(n: nat) -> Seq<char>
    decreases n,
{
    if n < 10 {
        seq![digit(n)]
    } else {
        decimal(n / 10).push(digit(n % 10))
    }
}

/// `n` in decimal, with a leading zero where one digit would do.
pub open spec fn decimal_two(n: nat) -> Seq<char> {
    if n < 10 {
        seq!['0', digit(n)]
    } else {
        decimal(n)
    }
}

fn digit_char(d: u64) -> (c: char)
    requires
        d < 10,
    ensures
        c == digit(d as nat),
{
    if d == 0 {
        '0'
    } else if d == 1 {
        '1'
    } else if d == 2 {
        '2'
    } else if d == 3 {
        '3'
    } else if d == 4 {
        '4'
    } else if d == 5 {
        '5'
    } else if d == 6 {
        '6'
    } else if d == 7 {
        '7'
    } else if d == 8 {
        '8'
    } else {
        '9'
    }
}

/// Writes `n` in decimal.
pub fn decimal_text(n: u64) -> (r: String)
    ensures
        r@ == decimal(n as nat),
    decreases n,
{
    if n < 10 {
        let mut text = String::new();
        text.push(digit_char(n));
        assert(text@ =~= decimal(n as nat));
        text
    } else {
        let mut text = decimal_text(n / 10);
        text.push(digit_char(n % 10));
        text
    }
}

/// Writes `n` in decimal with at least two digits.
pub fn decimal_two_text(n: u64) -> (r: String)
    ensures
        r@ == decimal_two(n as nat),
{
    if n < 10 {
        let mut text = String::new();
        text.push('0');
        text.push(digit_char(n));
        assert(text@ =~= decimal_two(n as nat));
        text
    } else {
        decimal_text(n)
    }
}

proof fn lemma_digit_injective(a: nat, b: nat)
    requires
        a < 10,
        b < 10,
        digit(a) == digit(b),
    ensures
        a == b,
{
}

proof fn lemma_decimal_len(n: nat)
    ensures
        decimal(n).len() >= 1,
        n >= 10 ==> decimal(n).len() >= 2,
    decreases n,
{
    if n >= 10 {
        lemma_decimal_len(n / 10);
    }
}

/// Two numbers that read the same are the same.
pub proof fn lemma_decimal_injective(a: nat, b: nat)
    requires
        decimal(a) == decimal(b),
    ensures
        a == b,
    decreases a,
{
    lemma_decimal_len(a);
    lemma_decimal_len(b);
    if a < 10 {
        if b < 10 {
            assert(decimal(a)[0] == digit(a) && decimal(b)[0] == digit(b));
            lemma_digit_injective(a, b);
        }
    } else if b >= 10 {
        let ha = decimal(a / 10);
        let hb = decimal(b / 10);
        assert(decimal(a).drop_last() =~= ha);
        assert(decimal(b).drop_last() =~= hb);
        assert(decimal(a).last() == digit(a % 10) && decimal(b).last() == digit(b % 10));
        lemma_digit_injective(a % 10, b % 10);
        lemma_decimal_injective(a / 10, b / 10);
    }
}

proof fn lemma_decimal_leading(n: nat)
    requires
        n >= 1,
    ensures
        decimal(n)[0] != '0',
    decreases n,
{
    if n >= 10 {
        lemma_decimal_leading(n / 10);
        lemma_decimal_len(n / 10);
    }
}

/// Two numbers that read the same with at least two digits are the same.
pub proof fn lemma_decimal_two_injective(a: nat, b: nat)
    requires
        decimal_two(a) == decimal_two(b),
    ensures
        a == b,
{
    if a < 10 && b < 10 {
        assert(decimal_two(a)[1] == decimal_two(b)[1]);
        lemma_digit_injective(a, b);
    } else if a < 10 {
        lemma_decimal_leading(b);
        assert(decimal_two(a)[0] == '0');
    } else if b < 10 {
        lemma_decimal_leading(a);
        assert(decimal_two(b)[0] == '0');
    } else {
        lemma_decimal_injective(a, b);
    }
}

/// Numbers are written in decimal digits alone, and a digit is the character as far
/// behind `0` as it counts.
pub proof fn lemma_decimal_two_is_digits(n: nat)
    ensures
        forall|i: int|
            0 <= i < decimal(n).len() ==> '0' as int <= (#[trigger] decimal(n)[i]) as int <= '9' as int,
        forall|i: int|
            0 <= i < decimal_two(n).len() ==> '0' as int <= (#[trigger] decimal_two(n)[i]) as int
                <= '9' as int,
        decimal_two(n).len() >= 2,
        n < 10 ==> digit(n) as int == '0' as int + n,
    decreases n,
{
    lemma_decimal_len(n);
    if n >= 10 {
        lemma_decimal_two_is_digits(n / 10);
        let head = decimal(n / 10);
        assert forall|i: int| 0 <= i < decimal(n).len() implies '0' as int <= (
        #[trigger] decimal(n)[i]) as int <= '9' as int by {
            if i < head.len() {
                assert(decimal(n)[i] == head[i]);
            }
        }
    }
}

/// Writing a digit behind a number multiplies it by ten and adds the digit.
pub proof fn decimal_is_positional(n: nat, d: nat)
    requires
        n > 0,
        d < 10,
    ensures
        decimal(n * 10 + d) == decimal(n).push(('0' as int + d) as char),
        decimal(d) == seq![('0' as int + d) as char],
        decimal_two(d) == seq!['0', ('0' as int + d) as char],
        decimal_two(n * 10 + d) == decimal(n * 10 + d),
{
    assert((n * 10 + d) / 10 == n && (n * 10 + d) % 10 == d);
}

/// Numbers are written without backslashes.
pub proof fn lemma_decimal_has_no_backslash(n: nat)
    ensures
        forall|i: int| 0 <= i < decimal(n).len() ==> #[trigger] decimal(n)[i] != '\\',
        forall|i: int| 0 <= i < decimal_two(n).len() ==> #[trigger] decimal_two(n)[i] != '\\',
    decreases n,
{
    if n >= 10 {
        lemma_decimal_has_no_backslash(n / 10);
        let head = decimal(n / 10);
        assert forall|i: int| 0 <= i < decimal(n).len() implies #[trigger] decimal(n)[i]
            != '\\' by {
            if i < head.len() {
                assert(decimal(n)[i] == head[i]);
            }
        }
    }
}

// ---------------------------------------------------------------------------
// Characters
// ---------------------------------------------------------------------------
/// The Unicode property `White_Space`.
pub open spec fn white_space(c: char) -> bool {
    let u = c as u32;
    ||| 0x09 <= u <= 0x0D
    ||| u == 0x20
    ||| u == 0x85
    ||| u == 0xA0
    ||| u == 0x1680
    ||| 0x2000 <= u <= 0x200A
    ||| u == 0x2028
    ||| u == 0x2029
    ||| u == 0x202F
    ||| u == 0x205F
    ||| u == 0x3000
}

pub fn is_white_space(c: char) -> (r: bool)
    ensures
        r == white_space(c),
{
    let u: u32 = c as u32;
    (0x09 <= u && u <= 0x0D) || u == 0x20 || u == 0x85 || u == 0xA0 || u == 0x1680 || (0x2000 <= u
        && u <= 0x200A) || u == 0x2028 || u == 0x2029 || u == 0x202F || u == 0x205F || u == 0x3000
}

/// `A` to `Z` become `a` to `z`; every other character stays.
pub open spec fn ascii_lower(c: char) -> char {
    if 'A' <= c <= 'Z' {
        ((c as u8) + 32) as u8 as char
    } else {
        c
    }
}

/// A backslash becomes a slash; every other character stays.
pub open spec fn slashed(c: char) -> char {
    if c == '\\' {
        '/'
    } else {
        c
    }
}

fn ascii_lower_char(c: char) -> (r: char)
    ensures
        r == ascii_lower(c),
{
    if 'A' <= c && c <= 'Z' {
        let b: u8 = c as u8;
        (b + 32) as char
    } else {
        c
    }
}

/// The text with every ASCII letter in lower case.
pub open spec fn lowered(text: Seq<char>) -> Seq<char> {
    text.map_values(|c: char| ascii_lower(c))
}

/// The text with every backslash turned into a slash.
pub open spec fn with_slashes(text: Seq<char>) -> Seq<char> {
    text.map_values(|c: char| slashed(c))
}

/// The characters of `text`, in order.
pub fn chars_of(text: &str) -> (r: Vec<char>)
    ensures
        r@ == text@,
{
    let mut chars: Vec<char> = Vec::new();
    for c in it: text.chars()
        invariant
            it.seq() == text@,
            chars@ == text@.take(it.index() as int),
    {
        chars.push(c);
        assert(chars@ =~= text@.take(it.index() as int + 1));
    }
    assert(text@.take(text@.len() as int) =~= text@);
    chars
}

/// The text with the characters of `chars` from `from` up to `to`.
pub fn text_between(chars: &Vec<char>, from: usize, to: usize) -> (r: String)
    requires
        from <= to <= chars.len(),
    ensures
        r@ == chars@.subrange(from as int, to as int),
{
    let mut text = String::new();
    let mut i: usize = from;
    while i < to
        invariant
            from <= i <= to <= chars.len(),
            text@ == chars@.subrange(from as int, i as int),
        decreases to - i,
    {
        text.push(chars[i]);
        i = i + 1;
        assert(text@ =~= chars@.subrange(from as int, i as int));
    }
    text
}

pub fn lower_text(text: &str) -> (r: String)
    ensures
        r@ == lowered(text@),
{
    let chars = chars_of(text);
    let mut out = String::new();
    let mut i: usize = 0;
    while i < chars.len()
        invariant
            i <= chars.len(),
            chars@ == text@,
            out@ == lowered(text@.take(i as int)),
        decreases chars.len() - i,
    {
        out.push(ascii_lower_char(chars[i]));
        i = i + 1;
        assert(out@ =~= lowered(text@.take(i as int)));
    }
    assert(text@.take(text@.len() as int) =~= text@);
    out
}

pub fn slashed_text(text: &str) -> (r: String)
    ensures
        r@ == with_slashes(text@),
{
    let chars = chars_of(text);
    let mut out = String::new();
    let mut i: usize = 0;
    while i < chars.len()
        invariant
            i <= chars.len(),
            chars@ == text@,
            out@ == with_slashes(text@.take(i as int)),
        decreases chars.len() - i,
    {
        if chars[i] == '\\' {
            out.push('/');
        } else {
            out.push(chars[i]);
        }
        i = i + 1;
        assert(out@ =~= with_slashes(text@.take(i as int)));
    }
    assert(text@.take(text@.len() as int) =~= text@);
    out
}

// ---------------------------------------------------------------------------
// Joining
// ---------------------------------------------------------------------------
/// `a` followed by `b`.
pub fn joined(a: &str, b: &str) -> (r: String)
    ensures
        r@ == a@ + b@,
{
    let mut text = a.to_owned();
    text.append(b);
    text
}

/// `a`, `b` and `c` in a row.
pub fn joined3(a: &str, b: &str, c: &str) -> (r: String)
    ensures
        r@ == a@ + b@ + c@,
{
    let mut text = a.to_owned();
    text.append(b);
    text.append(c);
    text
}

// ---------------------------------------------------------------------------
// Searching and trimming
// ---------------------------------------------------------------------------
/// Whether `pattern` stands in `text` at position `at`.
pub open spec fn stands_at(text: Seq<char>, pattern: Seq<char>, at: int) -> bool {
    &&& 0 <= at
    &&& at + pattern.len() <= text.len()
    &&& text.subrange(at, at + pattern.len()) == pattern
}

/// Whether `pattern` occurs somewhere in `text`.
pub open spec fn occurs_in(text: Seq<char>, pattern: Seq<char>) -> bool {
    exists|at: int| stands_at(text, pattern, at)
}

fn matches_at(text: &Vec<char>, pattern: &Vec<char>, at: usize) -> (r: bool)
    requires
        at + pattern.len() <= text.len(),
    ensures
        r == stands_at(text@, pattern@, at as int),
{
    let mut i: usize = 0;
    while i < pattern.len()
        invariant
            i <= pattern.len(),
            at + pattern.len() <= text.len(),
            forall|k: int| 0 <= k < i ==> text@[at + k] == pattern@[k],
        decreases pattern.len() - i,
    {
        if text[at + i] != pattern[i] {
            assert(text@.subrange(at as int, at + pattern@.len())[i as int] != pattern@[i as int]);
            return false;
        }
        i = i + 1;
    }
    assert(text@.subrange(at as int, at + pattern@.len()) =~= pattern@);
    true
}

pub fn text_occurs_in(text: &str, pattern: &str) -> (r: bool)
    ensures
        r == occurs_in(text@, pattern@),
{
    let text_chars = chars_of(text);
    let pattern_chars = chars_of(pattern);
    if pattern_chars.len() > text_chars.len() {
        return false;
    }
    if pattern_chars.len() == 0 {
        assert(stands_at(text@, pattern@, 0)) by {
            assert(text@.subrange(0, 0) =~= pattern@);
        }
        return true;
    }
    let count: usize = text_chars.len() - pattern_chars.len() + 1;
    let mut at: usize = 0;
    while at < count
        invariant
            at <= count,
            count + pattern_chars.len() == text_chars.len() + 1,
            text_chars@ == text@,
            pattern_chars@ == pattern@,
            forall|k: int| 0 <= k < at ==> !stands_at(text@, pattern@, k),
        decreases count - at,
    {
        if matches_at(&text_chars, &pattern_chars, at) {
            return true;
        }
        at = at + 1;
    }
    false
}

/// `text` without its leading and trailing white space.
pub open spec fn trimmed(text: Seq<char>) -> Seq<char>
    decreases text.len(),
{
    if text.len() > 0 && white_space(text.first()) {
        trimmed(text.drop_first())
    } else if text.len() > 0 && white_space(text.last()) {
        trimmed(text.drop_last())
    } else {
        text
    }
}

/// What trimming leaves neither begins nor ends with white space.
pub proof fn lemma_trimmed_ends(text: Seq<char>)
    ensures
        trimmed(text).len() > 0 ==> !white_space(trimmed(text).first()) && !white_space(
            trimmed(text).last(),
        ),
    decreases text.len(),
{
    if text.len() > 0 && white_space(text.first()) {
        lemma_trimmed_ends(text.drop_first());
    } else if text.len() > 0 && white_space(text.last()) {
        lemma_trimmed_ends(text.drop_last());
    }
}

/// Trimming a second time changes nothing.
pub proof fn lemma_trimmed_twice(text: Seq<char>)
    ensures
        trimmed(trimmed(text)) == trimmed(text),
{
    lemma_trimmed_ends(text);
}

/// Lower case a second time changes nothing.
pub proof fn lemma_lowered_twice(text: Seq<char>)
    ensures
        lowered(lowered(text)) == lowered(text),
{
    assert(lowered(lowered(text)) =~= lowered(text));
}

/// It is all the same whether a text is trimmed first or put into lower case first.
pub proof fn lemma_lowered_trimmed(text: Seq<char>)
    ensures
        trimmed(lowered(text)) == lowered(trimmed(text)),
    decreases text.len(),
{
    let low = lowered(text);
    if text.len() > 0 {
        assert(low.first() == ascii_lower(text.first()));
        assert(low.last() == ascii_lower(text.last()));
        if white_space(text.first()) {
            assert(low.drop_first() =~= lowered(text.drop_first()));
            lemma_lowered_trimmed(text.drop_first());
        } else if white_space(text.last()) {
            assert(low.drop_last() =~= lowered(text.drop_last()));
            lemma_lowered_trimmed(text.drop_last());
        }
    }
}

/// The part of `chars` from `from` up to `to`, trimmed.
pub fn trimmed_between(chars: &Vec<char>, from: usize, to: usize) -> (r: String)
    requires
        from <= to <= chars.len(),
    ensures
        r@ == trimmed(chars@.subrange(from as int, to as int)),
{
    let ghost whole = chars@.subrange(from as int, to as int);
    let mut lo: usize = from;
    let mut hi: usize = to;
    while lo < hi && is_white_space(chars[lo])
        invariant
            from <= lo <= hi <= chars.len(),
            trimmed(chars@.subrange(lo as int, hi as int)) == trimmed(whole),
        decreases hi - lo,
    {
        assert(chars@.subrange(lo as int, hi as int).drop_first() =~= chars@.subrange(
            lo + 1,
            hi as int,
        ));
        lo = lo + 1;
    }
    while lo < hi && is_white_space(chars[hi - 1])
        invariant
            lo <= hi <= chars.len(),
            lo < hi ==> !white_space(chars@[lo as int]),
            trimmed(chars@.subrange(lo as int, hi as int)) == trimmed(whole),
        decreases hi - lo,
    {
        assert(chars@.subrange(lo as int, hi as int).drop_last() =~= chars@.subrange(
            lo as int,
            hi - 1,
        ));
        hi = hi - 1;
    }
    text_between(chars, lo, hi)
}

pub fn trim_text(text: &str) -> (r: String)
    ensures
        r@ == trimmed(text@),
{
    let chars = chars_of(text);
    assert(chars@.subrange(0, chars@.len() as int) =~= text@);
    trimmed_between(&chars, 0, chars.len())
}

// ---------------------------------------------------------------------------
// Lines
// ---------------------------------------------------------------------------
/// The position of the first line feed at or after `from`, or the end.
pub open spec fn line_end(text: Seq<char>, from: int) -> int
    decreases text.len() - from,
{
    if from >= text.len() || text[from] == '\n' {
        from
    } else {
        line_end(text, from + 1)
    }
}

/// `line` without one carriage return at its end.
pub open spec fn without_return(line: Seq<char>) -> Seq<char> {
    if line.len() > 0 && line.last() == '\r' {
        line.drop_last()
    } else {
        line
    }
}

/// The lines of `text` from position `from` on. A line ends with a line feed,
/// which may follow a carriage return; the last line may go without.
pub open spec fn lines_from(text: Seq<char>, from: int) -> Seq<Seq<char>>
    decreases text.len() - from,
    when from >= 0
    via lines_from_decreases
{
    if from >= text.len() {
        seq![]
    } else {
        let end = line_end(text, from);
        if end >= text.len() {
            seq![text.subrange(from, text.len() as int)]
        } else {
            seq![without_return(text.subrange(from, end))] + lines_from(text, end + 1)
        }
    }
}

#[via_fn]
proof fn lines_from_decreases(text: Seq<char>, from: int) {
    if from < text.len() {
        lemma_line_end(text, from);
    }
}

pub proof fn lemma_line_end(text: Seq<char>, from: int)
    requires
        0 <= from <= text.len(),
    ensures
        from <= line_end(text, from) <= text.len(),
        line_end(text, from) < text.len() ==> text[line_end(text, from)] == '\n',
        forall|k: int| from <= k < line_end(text, from) ==> text[k] != '\n',
    decreases text.len() - from,
{
    if from < text.len() && text[from] != '\n' {
        lemma_line_end(text, from + 1);
    }
}

/// Finds where the line that starts at `from` ends.
pub fn find_line_end(chars: &Vec<char>, from: usize) -> (r: usize)
    requires
        from <= chars.len(),
    ensures
        r == line_end(chars@, from as int),
        from <= r <= chars.len(),
{
    let mut i: usize = from;
    while i < chars.len() && chars[i] != '\n'
        invariant
            from <= i <= chars.len(),
            line_end(chars@, i as int) == line_end(chars@, from as int),
        decreases chars.len() - i,
    {
        i = i + 1;
    }
    i
}

// ---------------------------------------------------------------------------
// Order
// ---------------------------------------------------------------------------
/// Whether `a` comes no later than `b` in dictionary order of code points.
pub open spec fn text_at_most(a: Seq<char>, b: Seq<char>) -> bool
    decreases a.len(),
{
    if a.len() == 0 {
        true
    } else if b.len() == 0 {
        false
    } else if a.first() == b.first() {
        text_at_most(a.drop_first(), b.drop_first())
    } else {
        a.first() < b.first()
    }
}

pub proof fn lemma_text_order_total(a: Seq<char>, b: Seq<char>)
    ensures
        text_at_most(a, b) || text_at_most(b, a),
    decreases a.len(),
{
    if a.len() > 0 && b.len() > 0 && a.first() == b.first() {
        lemma_text_order_total(a.drop_first(), b.drop_first());
    }
}

pub proof fn lemma_text_order_transitive(a: Seq<char>, b: Seq<char>, c: Seq<char>)
    requires
        text_at_most(a, b),
        text_at_most(b, c),
    ensures
        text_at_most(a, c),
    decreases a.len(),
{
    if a.len() > 0 && a.first() == b.first() && b.first() == c.first() {
        lemma_text_order_transitive(a.drop_first(), b.drop_first(), c.drop_first());
    }
}

fn comes_no_later(a: &str, b: &str) -> (r: bool)
    ensures
        r == text_at_most(a@, b@),
{
    let left = chars_of(a);
    let right = chars_of(b);
    let mut i: usize = 0;
    assert(left@.skip(0) =~= a@);
    assert(right@.skip(0) =~= b@);
    while i < left.len()
        invariant
            i <= left.len(),
            i <= right.len(),
            text_at_most(left@.skip(i as int), right@.skip(i as int)) == text_at_most(a@, b@),
        decreases left.len() - i,
    {
        if i >= right.len() {
            return false;
        }
        if left[i] != right[i] {
            return left[i] < right[i];
        }
        assert(left@.skip(i as int).drop_first() =~= left@.skip(i + 1));
        assert(right@.skip(i as int).drop_first() =~= right@.skip(i + 1));
        i = i + 1;
    }
    true
}

/// The contents of a list of texts.
pub open spec fn texts(list: Seq<String>) -> Seq<Seq<char>> {
    list.map_values(|t: String| t@)
}

/// Whether a list of texts stands in dictionary order.
pub open spec fn texts_sorted(list: Seq<Seq<char>>) -> bool {
    forall|i: int, j: int| 0 <= i < j < list.len() ==> text_at_most(list[i], list[j])
}

/// Puts `item` in its place in a list that stands in order.
fn insert_sorted(list: &mut Vec<String>, item: String)
    requires
        texts_sorted(texts(old(list)@)),
        old(list).len() < usize::MAX,
    ensures
        texts_sorted(texts(final(list)@)),
        texts(final(list)@).to_multiset() == texts(old(list)@).to_multiset().insert(item@),
        final(list).len() == old(list).len() + 1,
{
    let mut at: usize = list.len();
    let ghost before = texts(list@);
    while at > 0 && !comes_no_later(&list[at - 1], &item)
        invariant
            at <= list.len(),
            before == texts(list@),
            texts_sorted(before),
            forall|k: int| at <= k < list.len() ==> !text_at_most(before[k], item@),
        decreases at,
    {
        assert(before[at - 1] == list@[at - 1]@);
        at = at - 1;
    }
    let ghost it = item@;
    list.insert(at, item);
    proof {
        let after = texts(list@);
        assert(after =~= before.insert(at as int, it));
        assert forall|i: int, j: int| 0 <= i < j < after.len() implies text_at_most(
            after[i],
            after[j],
        ) by {
            let bi = if i < at { i } else { i - 1 };
            let bj = if j < at { j } else { j - 1 };
            if i == at {
                lemma_text_order_total(before[bj], it);
            } else if j == at {
                assert(before[at - 1] == list@[at - 1]@);
                if bi < at - 1 {
                    lemma_text_order_transitive(before[bi], before[at - 1], it);
                }
            }
        }
        before.insert_ensures(at as int, it);
        vstd::seq_lib::to_multiset_insert(before, at as int, it);
    }
}

/// Sorts a list of texts into dictionary order.
pub fn sorted_texts(list: Vec<String>) -> (r: Vec<String>)
    ensures
        texts_sorted(texts(r@)),
        texts(r@).to_multiset() == texts(list@).to_multiset(),
{
    let mut sorted: Vec<String> = Vec::new();
    let mut i: usize = 0;
    assert(texts(sorted@) =~= texts(list@.take(0)));
    while i < list.len()
        invariant
            i <= list.len(),
            sorted.len() == i,
            texts_sorted(texts(sorted@)),
            texts(sorted@).to_multiset() == texts(list@.take(i as int)).to_multiset(),
        decreases list.len() - i,
    {
        insert_sorted(&mut sorted, list[i].clone());
        proof {
            let head = texts(list@.take(i as int));
            assert(texts(list@.take(i + 1)) =~= head.push(list@[i as int]@));
            broadcast use vstd::seq_lib::group_to_multiset_ensures;
        }
        i = i + 1;
    }
    assert(list@.take(list@.len() as int) =~= list@);
    sorted
}

/// Trimming takes away the white space on either side and nothing else.
pub proof fn trimming_removes_outer_white_space(
    left: Seq<char>,
    core: Seq<char>,
    right: Seq<char>,
)
    requires
        forall|i: int| 0 <= i < left.len() ==> white_space(#[trigger] left[i]),
        forall|i: int| 0 <= i < right.len() ==> white_space(#[trigger] right[i]),
        core.len() > 0 ==> !white_space(core.first()) && !white_space(core.last()),
    ensures
        trimmed(left + core + right) == core,
    decreases left.len() + right.len(),
{
    let whole = left + core + right;
    if left.len() > 0 {
        let rest = left.drop_first();
        assert(whole.first() == left[0]);
        assert(whole.drop_first() =~= rest + core + right);
        assert forall|i: int| 0 <= i < rest.len() implies white_space(#[trigger] rest[i]) by {
            assert(rest[i] == left[i + 1]);
        }
        trimming_removes_outer_white_space(rest, core, right);
    } else if core.len() > 0 {
        assert(whole.first() == core.first());
        if right.len() > 0 {
            let rest = right.drop_last();
            assert(whole.last() == right[right.len() - 1]);
            assert(whole.drop_last() =~= left + core + rest);
            trimming_removes_outer_white_space(left, core, rest);
        } else {
            assert(whole =~= core);
        }
    } else if right.len() > 0 {
        let rest = right.drop_first();
        assert(whole.first() == right[0]);
        assert(whole.drop_first() =~= left + core + rest);
        assert forall|i: int| 0 <= i < rest.len() implies white_space(#[trigger] rest[i]) by {
            assert(rest[i] == right[i + 1]);
        }
        trimming_removes_outer_white_space(left, core, rest);
    } else {
        assert(whole =~= core);
    }
}

/// Lowering changes the letters `A` to `Z` and nothing else, each to the letter that stands
/// 32 places on.
pub proof fn lowering_changes_capitals_only(text: Seq<char>, i: int)
    requires
        0 <= i < text.len(),
    ensures
        lowered(text).len() == text.len(),
        'A' as int <= text[i] as int <= 'Z' as int ==> lowered(text)[i] as int == text[i] as int
            + 32,
        !('A' as int <= text[i] as int <= 'Z' as int) ==> lowered(text)[i] == text[i],
{
}

/// Slashing turns every backslash into a slash and leaves all else.
pub proof fn slashing_changes_backslashes_only(text: Seq<char>, i: int)
    requires
        0 <= i < text.len(),
    ensures
        with_slashes(text).len() == text.len(),
        with_slashes(text)[i] == if text[i] == '\\' {
            '/'
        } else {
            text[i]
        },
{
}

/// Two texts that come no later than each other are the same.
pub proof fn text_order_tells_texts_apart(a: Seq<char>, b: Seq<char>)
    requires
        text_at_most(a, b),
        text_at_most(b, a),
    ensures
        a == b,
    decreases a.len(),
{
    if a.len() > 0 && b.len() > 0 && a.first() == b.first() {
        text_order_tells_texts_apart(a.drop_first(), b.drop_first());
        assert(a =~= seq![a.first()] + a.drop_first());
        assert(b =~= seq![b.first()] + b.drop_first());
    } else {
        assert(a =~= b);
    }
}

/// The first character in which two texts differ decides which comes first; a text comes
/// before all that go on from it.
pub proof fn first_difference_decides_order(
    head: Seq<char>,
    a: char,
    b: char,
    rest_a: Seq<char>,
    rest_b: Seq<char>,
)
    requires
        (a as int) < (b as int),
    ensures
        text_at_most(head + seq![a] + rest_a, head + seq![b] + rest_b),
        !text_at_most(head + seq![b] + rest_b, head + seq![a] + rest_a),
        text_at_most(head, head + rest_a),
    decreases head.len(),
{
    let x = head + seq![a] + rest_a;
    let y = head + seq![b] + rest_b;
    let z = head + rest_a;
    if head.len() > 0 {
        let tail = head.drop_first();
        assert(x.first() == head[0] && y.first() == head[0] && z.first() == head[0]);
        assert(x.drop_first() =~= tail + seq![a] + rest_a);
        assert(y.drop_first() =~= tail + seq![b] + rest_b);
        assert(z.drop_first() =~= tail + rest_a);
        first_difference_decides_order(tail, a, b, rest_a, rest_b);
    } else {
        assert(x.first() == a && y.first() == b);
    }
}

proof fn lemma_line_end_shift(text: Seq<char>, from: int, shift: int)
    requires
        0 <= shift <= from <= text.len(),
    ensures
        line_end(text, from) == line_end(text.skip(shift), from - shift) + shift,
    decreases text.len() - from,
{
    if from < text.len() {
        assert(text.skip(shift)[from - shift] == text[from]);
        if text[from] != '\n' {
            lemma_line_end_shift(text, from + 1, shift);
        }
    }
}

proof fn lemma_lines_shift(text: Seq<char>, from: int, shift: int)
    requires
        0 <= shift <= from <= text.len(),
    ensures
        lines_from(text, from) == lines_from(text.skip(shift), from - shift),
    decreases text.len() - from,
{
    let part = text.skip(shift);
    if from < text.len() {
        lemma_line_end_shift(text, from, shift);
        lemma_line_end(text, from);
        let end = line_end(text, from);
        if end >= text.len() {
            assert(text.subrange(from, text.len() as int) =~= part.subrange(
                from - shift,
                part.len() as int,
            ));
        } else {
            assert(text.subrange(from, end) =~= part.subrange(from - shift, end - shift));
            lemma_lines_shift(text, end + 1, shift);
        }
    }
}

proof fn lemma_line_end_at(text: Seq<char>, from: int, end: int)
    requires
        0 <= from <= end <= text.len(),
        forall|i: int| from <= i < end ==> #[trigger] text[i] != '\n',
        end < text.len() ==> text[end] == '\n',
    ensures
        line_end(text, from) == end,
    decreases end - from,
{
    if from < end {
        assert(text[from] != '\n');
        lemma_line_end_at(text, from + 1, end);
    }
}

/// A text is its first line and the lines after it: what stands before the first line feed,
/// without a carriage return at its end, and what stands behind it. A text without a line
/// feed is one line, and no text is no line.
pub proof fn lines_are_told_by_line_feeds(line: Seq<char>, rest: Seq<char>)
    requires
        forall|i: int| 0 <= i < line.len() ==> #[trigger] line[i] != '\n',
    ensures
        lines_from(line + seq!['\n'] + rest, 0) == seq![
            if line.len() > 0 && line.last() == '\r' {
                line.drop_last()
            } else {
                line
            },
        ] + lines_from(rest, 0),
        line.len() > 0 ==> lines_from(line, 0) == seq![line],
        lines_from(Seq::<char>::empty(), 0) == Seq::<Seq<char>>::empty(),
{
    let whole = line + seq!['\n'] + rest;
    let n = line.len() as int;
    assert forall|i: int| 0 <= i < n implies #[trigger] whole[i] != '\n' by {
        assert(whole[i] == line[i]);
    }
    assert(whole[n] == '\n');
    lemma_line_end_at(whole, 0, n);
    lemma_line_end_at(line, 0, n);
    assert(whole.subrange(0, n) =~= line);
    lemma_lines_shift(whole, n + 1, n + 1);
    assert(whole.skip(n + 1) =~= rest);
    if n > 0 {
        assert(line.subrange(0, n) =~= line);
    }
}

/// A pattern occurs in a text exactly where the text is something, the pattern and something
/// more.
pub proof fn patterns_occur_where_written(text: Seq<char>, pattern: Seq<char>)
    ensures
        occurs_in(text, pattern) <==> exists|before: Seq<char>, after: Seq<char>|
            text == #[trigger] (before + pattern + after),
{
    if occurs_in(text, pattern) {
        let at = choose|at: int| stands_at(text, pattern, at);
        let before = text.take(at);
        let after = text.skip(at + pattern.len());
        assert(before + pattern + after =~= text) by {
            assert forall|i: int| at <= i < at + pattern.len() implies text[i] == pattern[i
                - at] by {
                assert(text.subrange(at, at + pattern.len())[i - at] == text[i]);
            }
        }
    }
    if exists|before: Seq<char>, after: Seq<char>| text == #[trigger] (before + pattern + after) {
        let (before, after) = choose|before: Seq<char>, after: Seq<char>|
            text == #[trigger] (before + pattern + after);
        let at = before.len() as int;
        assert(text.subrange(at, at + pattern.len()) =~= pattern);
        assert(stands_at(text, pattern, at));
    }
}

/// In a sorted list no text comes after one that stands behind it; two lists of one text each are
/// sorted, and two texts are where the first comes no later.
pub proof fn sorted_lists_rise(list: Seq<Seq<char>>, a: Seq<char>, b: Seq<char>, i: int, j: int)
    requires
        texts_sorted(list),
        0 <= i < j < list.len(),
    ensures
        text_at_most(list[i], list[j]),
        texts_sorted(seq![a]),
        texts_sorted(seq![a, b]) <==> text_at_most(a, b),
{
    let pair = seq![a, b];
    assert(pair[0] == a && pair[1] == b);
}

} // verus!

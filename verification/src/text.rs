//! Helpers on strings shared by the other modules.
//!
//! The functions marked `external_body` each call one function of the
//! standard library that has no specification of its own here. Their
//! contracts are taken from the standard library's documentation and are not
//! proved.

use vstd::prelude::*;
use vstd::string::*;

verus! {

/// Whether two string slices hold the same characters.
pub fn str_eq(a: &str, b: &str) -> (r: bool)
    ensures
        r == (a@ == b@),
{
    let x = a.to_owned();
    let y = b.to_owned();
    x == y
}

/// The texts of `names`.
pub open spec fn texts(names: Seq<String>) -> Seq<Seq<char>> {
    names.map_values(|n: String| n@)
}

/// The index of the first of `names` that reads `name`, if any.
pub fn find_name(names: &Vec<String>, name: &str) -> (found: Option<usize>)
    ensures
        match found {
            Some(i) => i < names.len() && names[i as int]@ == name@ && forall|j: int|
                0 <= j < i ==> names[j]@ != name@,
            None => forall|j: int| 0 <= j < names.len() ==> names[j]@ != name@,
        },
{
    let key = name.to_owned();
    let mut i: usize = 0;
    while i < names.len()
        invariant
            i <= names.len(),
            key@ == name@,
            forall|j: int| 0 <= j < i ==> names[j]@ != name@,
        decreases names.len() - i,
    {
        if names[i] == key {
            return Some(i);
        }
        i += 1;
    }
    None
}

/// Whether `c` has the Unicode property `White_Space`, as `char::is_whitespace`
/// decides it.
pub uninterp spec fn whitespace(c: char) -> bool;

/// Calls `char::is_whitespace`.
#[verifier::external_body]
pub(crate) fn is_whitespace(c: char) -> (r: bool)
    ensures
        r == whitespace(c),
{
    c.is_whitespace()
}

/// Calls `String::push`, which appends one character.
#[verifier::external_body]
pub(crate) fn push_char(s: &mut String, c: char)
    ensures
        final(s)@ == old(s)@.push(c),
{
    s.push(c)
}

/// `s` without its leading whitespace.
pub open spec fn trim_front(s: Seq<char>) -> Seq<char>
    decreases s.len(),
{
    if s.len() > 0 && whitespace(s[0]) {
        trim_front(s.drop_first())
    } else {
        s
    }
}

/// `s` without its trailing whitespace.
pub open spec fn trim_back(s: Seq<char>) -> Seq<char>
    decreases s.len(),
{
    if s.len() > 0 && whitespace(s.last()) {
        trim_back(s.drop_last())
    } else {
        s
    }
}

/// `s` without leading and trailing whitespace.
pub open spec fn trimmed(s: Seq<char>) -> Seq<char> {
    trim_back(trim_front(s))
}

/// Removes leading and trailing whitespace, as `str::trim` does.
pub fn trim(s: &str) -> (r: &str)
    ensures
        r@ == trimmed(s@),
{
    let chars = chars_of(s);
    let n = chars.len();
    let mut start: usize = 0;
    assert(s@.subrange(0, n as int) =~= s@);
    while start < n && is_whitespace(chars[start])
        invariant
            start <= n,
            n == s@.len(),
            chars@ == s@,
            trim_front(s@) == trim_front(s@.subrange(start as int, n as int)),
        decreases n - start,
    {
        assert(s@.subrange(start as int, n as int).drop_first() =~= s@.subrange(
            start + 1,
            n as int,
        ));
        start += 1;
    }
    let ghost front = s@.subrange(start as int, n as int);
    assert(trim_front(s@) == front);
    let mut end: usize = n;
    while end > start && is_whitespace(chars[end - 1])
        invariant
            start <= end <= n,
            n == s@.len(),
            chars@ == s@,
            front == s@.subrange(start as int, n as int),
            trim_back(front) == trim_back(s@.subrange(start as int, end as int)),
        decreases end,
    {
        assert(s@.subrange(start as int, end as int).drop_last() =~= s@.subrange(
            start as int,
            end - 1,
        ));
        end -= 1;
    }
    s.substring_char(start, end)
}

/// `s` without the `c`s it starts with.
pub open spec fn strip_leading(s: Seq<char>, c: char) -> Seq<char>
    decreases s.len(),
{
    if s.len() > 0 && s[0] == c {
        strip_leading(s.drop_first(), c)
    } else {
        s
    }
}

/// Removes every leading `c`, as `str::trim_start_matches` does with a
/// character.
pub fn trim_start_matches(s: &str, c: char) -> (r: &str)
    ensures
        r@ == strip_leading(s@, c),
{
    let chars = chars_of(s);
    let n = chars.len();
    let mut start: usize = 0;
    assert(s@.subrange(0, n as int) =~= s@);
    while start < n && chars[start] == c
        invariant
            start <= n,
            n == s@.len(),
            chars@ == s@,
            strip_leading(s@, c) == strip_leading(s@.subrange(start as int, n as int), c),
        decreases n - start,
    {
        assert(s@.subrange(start as int, n as int).drop_first() =~= s@.subrange(
            start + 1,
            n as int,
        ));
        start += 1;
    }
    s.substring_char(start, n)
}

/// Whether `s` starts with the character `c`.
pub fn starts_with_char(s: &str, c: char) -> (r: bool)
    ensures
        r == (s@.len() > 0 && s@[0] == c),
{
    s.unicode_len() > 0 && s.get_char(0) == c
}

/// Whether `needle` occurs in `hay` as a run of neighbouring characters.
pub open spec fn occurs_in(hay: Seq<char>, needle: Seq<char>) -> bool {
    exists|i: int|
        0 <= i && i + needle.len() <= hay.len() && #[trigger] hay.subrange(
            i,
            i + needle.len(),
        ) == needle
}

/// Whether the characters of `needle` stand in `hay` from position `at`
/// on.
fn matches_at(hay: &Vec<char>, needle: &Vec<char>, at: usize) -> (r: bool)
    requires
        at + needle.len() <= hay.len(),
    ensures
        r == (hay@.subrange(at as int, at + needle.len()) == needle@),
{
    let mut k: usize = 0;
    while k < needle.len()
        invariant
            k <= needle.len(),
            at + needle.len() <= hay.len(),
            forall|j: int| 0 <= j < k ==> hay[at + j] == needle[j],
        decreases needle.len() - k,
    {
        if hay[at + k] != needle[k] {
            assert(hay@.subrange(at as int, at + needle.len())[k as int] != needle@[k as int]);
            return false;
        }
        k += 1;
    }
    assert(hay@.subrange(at as int, at + needle.len()) =~= needle@);
    true
}

/// Whether `needle` occurs in `hay`, as `str::contains` decides it for a
/// string slice.
pub fn contains_text(hay: &str, needle: &str) -> (r: bool)
    ensures
        r == occurs_in(hay@, needle@),
{
    let h = chars_of(hay);
    let n = chars_of(needle);
    if n.len() > h.len() {
        return false;
    }
    let last = h.len() - n.len();
    let mut i: usize = 0;
    while i < last
        invariant
            i <= last,
            last == h.len() - n.len(),
            h@ == hay@,
            n@ == needle@,
            forall|j: int| 0 <= j < i ==> #[trigger] hay@.subrange(j, j + needle@.len()) != needle@,
        decreases last - i,
    {
        if matches_at(&h, &n, i) {
            return true;
        }
        i += 1;
    }
    matches_at(&h, &n, last)
}

/// Whether `s` starts with `prefix`, as `str::starts_with` decides it for a
/// string slice.
pub fn starts_with(s: &str, prefix: &str) -> (r: bool)
    ensures
        r == prefix@.is_prefix_of(s@),
{
    let text = chars_of(s);
    let start = chars_of(prefix);
    if start.len() > text.len() {
        return false;
    }
    let found = matches_at(&text, &start, 0);
    assert(found == prefix@.is_prefix_of(s@)) by {
        if prefix@.is_prefix_of(s@) {
            assert(s@.subrange(0, prefix@.len() as int) =~= prefix@);
        }
    }
    found
}

/// The order in which the standard library sorts strings: `a` comes before
/// `b` or is `b`.
pub uninterp spec fn text_le(a: Seq<char>, b: Seq<char>) -> bool;

/// Calls `sort` on a vector of strings, which puts them in ascending order
/// and neither adds nor drops one.
#[verifier::external_body]
pub(crate) fn sort_names(names: &mut Vec<String>)
    ensures
        final(names)@.map_values(|n: String| n@).to_multiset() == old(names)@.map_values(
            |n: String| n@,
        ).to_multiset(),
        forall|i: int, j: int|
            0 <= i < j < final(names).len() ==> text_le(
                #[trigger] final(names)[i]@,
                #[trigger] final(names)[j]@,
            ),
{
    names.sort()
}

/// A text cut into pieces up to some position: the pieces that are
/// complete, and the one that is still growing.
pub struct Cut {
    pub done: Seq<Seq<char>>,
    pub current: Seq<char>,
}

/// Cutting `s` at whitespace: a whitespace character ends the word before
/// it, if there is one.
pub open spec fn cut_at_whitespace(s: Seq<char>) -> Cut
    decreases s.len(),
{
    if s.len() == 0 {
        Cut { done: Seq::empty(), current: Seq::empty() }
    } else {
        let before = cut_at_whitespace(s.drop_last());
        if !whitespace(s.last()) {
            Cut { done: before.done, current: before.current.push(s.last()) }
        } else if before.current.len() > 0 {
            Cut { done: before.done.push(before.current), current: Seq::empty() }
        } else {
            before
        }
    }
}

/// The words of a text: its longest runs of characters that are not
/// whitespace.
pub open spec fn words_of(s: Seq<char>) -> Seq<Seq<char>> {
    let cut = cut_at_whitespace(s);
    if cut.current.len() > 0 {
        cut.done.push(cut.current)
    } else {
        cut.done
    }
}

/// Splits a text into its words, as `str::split_whitespace` does.
pub fn split_whitespace(s: &str) -> (r: Vec<String>)
    ensures
        r@.map_values(|w: String| w@) == words_of(s@),
{
    let chars = chars_of(s);
    let mut words: Vec<String> = Vec::new();
    let mut current = String::new();
    let mut i: usize = 0;
    assert(chars@.subrange(0, 0) =~= Seq::<char>::empty());
    assert(words@.map_values(|w: String| w@) =~= Seq::<Seq<char>>::empty());
    while i < chars.len()
        invariant
            i <= chars.len(),
            chars@ == s@,
            cut_at_whitespace(chars@.subrange(0, i as int)) == (Cut {
                done: words@.map_values(|w: String| w@),
                current: current@,
            }),
        decreases chars.len() - i,
    {
        let c = chars[i];
        proof {
            let next = chars@.subrange(0, i + 1);
            assert(next.drop_last() =~= chars@.subrange(0, i as int));
            assert(next.last() == c);
        }
        if !is_whitespace(c) {
            push_char(&mut current, c);
        } else if !current.as_str().is_empty() {
            let ghost before = words@.map_values(|w: String| w@);
            let ghost word = current@;
            words.push(current);
            current = String::new();
            assert(words@.map_values(|w: String| w@) =~= before.push(word));
        }
        i += 1;
    }
    assert(chars@.subrange(0, chars.len() as int) =~= s@);
    if !current.as_str().is_empty() {
        let ghost before = words@.map_values(|w: String| w@);
        let ghost word = current@;
        words.push(current);
        assert(words@.map_values(|w: String| w@) =~= before.push(word));
    }
    words
}

/// Cutting `s` at every `sep`.
pub open spec fn cut_at(s: Seq<char>, sep: char) -> Cut
    decreases s.len(),
{
    if s.len() == 0 {
        Cut { done: Seq::empty(), current: Seq::empty() }
    } else {
        let before = cut_at(s.drop_last(), sep);
        if s.last() == sep {
            Cut { done: before.done.push(before.current), current: Seq::empty() }
        } else {
            Cut { done: before.done, current: before.current.push(s.last()) }
        }
    }
}

/// The pieces of a text between the occurrences of `sep`: one more than
/// there are occurrences, empty pieces included.
pub open spec fn pieces_of(s: Seq<char>, sep: char) -> Seq<Seq<char>> {
    cut_at(s, sep).done.push(cut_at(s, sep).current)
}

/// Splits a text at every `sep`, as `str::split` does with a character.
pub fn split_at_char(s: &str, sep: char) -> (r: Vec<String>)
    ensures
        r@.map_values(|w: String| w@) == pieces_of(s@, sep),
{
    let chars = chars_of(s);
    let mut pieces: Vec<String> = Vec::new();
    let mut current = String::new();
    let mut i: usize = 0;
    assert(chars@.subrange(0, 0) =~= Seq::<char>::empty());
    assert(pieces@.map_values(|w: String| w@) =~= Seq::<Seq<char>>::empty());
    while i < chars.len()
        invariant
            i <= chars.len(),
            chars@ == s@,
            cut_at(chars@.subrange(0, i as int), sep) == (Cut {
                done: pieces@.map_values(|w: String| w@),
                current: current@,
            }),
        decreases chars.len() - i,
    {
        let c = chars[i];
        proof {
            let next = chars@.subrange(0, i + 1);
            assert(next.drop_last() =~= chars@.subrange(0, i as int));
            assert(next.last() == c);
        }
        if c == sep {
            let ghost before = pieces@.map_values(|w: String| w@);
            let ghost piece = current@;
            pieces.push(current);
            current = String::new();
            assert(pieces@.map_values(|w: String| w@) =~= before.push(piece));
        } else {
            push_char(&mut current, c);
        }
        i += 1;
    }
    assert(chars@.subrange(0, chars.len() as int) =~= s@);
    let ghost before = pieces@.map_values(|w: String| w@);
    let ghost piece = current@;
    pieces.push(current);
    assert(pieces@.map_values(|w: String| w@) =~= before.push(piece));
    pieces
}

/// A line without the carriage return that stands before its line feed.
pub open spec fn without_cr(line: Seq<char>) -> Seq<char> {
    if line.len() > 0 && line.last() == '\r' {
        line.drop_last()
    } else {
        line
    }
}

/// The lines of a text. A line ends with a line feed, or with a carriage
/// return and a line feed, and holds neither. What stands behind the last
/// line feed is a line too, unless nothing stands there.
pub open spec fn lines_of(s: Seq<char>) -> Seq<Seq<char>> {
    let cut = cut_at(s, '\n');
    let ended = cut.done.map_values(|line: Seq<char>| without_cr(line));
    if cut.current.len() > 0 {
        ended.push(cut.current)
    } else {
        ended
    }
}

/// Splits a text into its lines.
pub fn lines(s: &str) -> (r: Vec<String>)
    ensures
        r@.map_values(|l: String| l@) == lines_of(s@),
{
    let mut pieces = split_at_char(s, '\n');
    let ghost cut = cut_at(s@, '\n');
    let ghost all = pieces@.map_values(|w: String| w@);
    assert(all.len() == cut.done.len() + 1);
    assert(all.last() == pieces[pieces.len() - 1]@);
    let last = match pieces.pop() {
        Some(last) => last,
        None => String::new(),
    };
    assert(pieces@.map_values(|w: String| w@) =~= all.drop_last());
    assert(all.drop_last() =~= cut.done);
    assert(last@ == cut.current);
    let mut out: Vec<String> = Vec::new();
    let mut i: usize = 0;
    while i < pieces.len()
        invariant
            i <= pieces.len(),
            pieces@.map_values(|w: String| w@) == cut.done,
            out@.map_values(|l: String| l@) == cut.done.subrange(0, i as int).map_values(
                |line: Seq<char>| without_cr(line),
            ),
        decreases pieces.len() - i,
    {
        let ghost before = out@.map_values(|l: String| l@);
        let piece = pieces[i].as_str();
        assert(cut.done[i as int] == piece@);
        let n = piece.unicode_len();
        let line = if n > 0 && piece.get_char(n - 1) == '\r' {
            piece.substring_char(0, n - 1).to_owned()
        } else {
            piece.to_owned()
        };
        assert(line@ =~= without_cr(piece@));
        out.push(line);
        assert(out@.map_values(|l: String| l@) =~= before.push(without_cr(piece@)));
        assert(cut.done.subrange(0, i + 1) =~= cut.done.subrange(0, i as int).push(
            cut.done[i as int],
        ));
        assert(cut.done.subrange(0, i + 1).map_values(|line: Seq<char>| without_cr(line))
            =~= before.push(without_cr(piece@)));
        i += 1;
    }
    assert(cut.done.subrange(0, pieces.len() as int) =~= cut.done);
    if !last.as_str().is_empty() {
        let ghost before = out@.map_values(|l: String| l@);
        let ghost text = last@;
        out.push(last);
        assert(out@.map_values(|l: String| l@) =~= before.push(text));
    }
    out
}

/// The lowercase form of a text as `str::to_lowercase` gives it.
pub uninterp spec fn lowercase_of(s: Seq<char>) -> Seq<char>;

/// Calls `str::to_lowercase`.
#[verifier::external_body]
pub(crate) fn to_lowercase(s: &str) -> (r: String)
    ensures
        r@ == lowercase_of(s@),
{
    s.to_lowercase()
}

/// The character that stands for a digit.
pub open spec fn digit_char(d: int) -> char {
    if d == 0 {
        '0'
    } else if d == 1 {
        '1'
    } else if d == 2 {
        '2'
    } else if d == 3 {
        '3'
    } else if d == 4 {
        '4'
    } else if d == 5 {
        '5'
    } else if d == 6 {
        '6'
    } else if d == 7 {
        '7'
    } else if d == 8 {
        '8'
    } else {
        '9'
    }
}

/// The decimal digits of `n`, the most significant first, without leading
/// zeros.
pub open spec fn decimal_text(n: u32) -> Seq<char>
    decreases n,
{
    if n < 10 {
        seq![digit_char(n as int)]
    } else {
        decimal_text(n / 10).push(digit_char(n as int % 10))
    }
}

fn digit(d: u32) -> (c: char)
    requires
        d < 10,
    ensures
        c == digit_char(d as int),
{
    if d == 0 {
        '0'
    } else if d == 1 {
        '1'
    } else if d == 2 {
        '2'
    } else if d == 3 {
        '3'
    } else if d == 4 {
        '4'
    } else if d == 5 {
        '5'
    } else if d == 6 {
        '6'
    } else if d == 7 {
        '7'
    } else if d == 8 {
        '8'
    } else {
        '9'
    }
}

/// Writes `n` in decimal digits.
pub fn decimal(n: u32) -> (text: String)
    ensures
        text@ == decimal_text(n),
{
    // the digits from the least significant on
    let mut low: Vec<char> = Vec::new();
    let mut rest = n;
    assert(decimal_text(rest) + low@.reverse() =~= decimal_text(n));
    while rest >= 10
        invariant
            decimal_text(rest) + low@.reverse() == decimal_text(n),
        decreases rest,
    {
        let ghost before = low@;
        let ghost was = rest;
        low.push(digit(rest % 10));
        rest = rest / 10;
        proof {
            let d = digit_char(was as int % 10);
            assert(low@.reverse() =~= seq![d] + before.reverse());
            assert(decimal_text(was) =~= decimal_text(rest).push(d));
            assert(decimal_text(rest) + low@.reverse() =~= decimal_text(was) + before.reverse());
        }
    }
    let mut text = String::new();
    push_char(&mut text, digit(rest));
    let mut i: usize = low.len();
    assert(text@ =~= decimal_text(rest) + low@.reverse().subrange(0, 0));
    while i > 0
        invariant
            i <= low.len(),
            rest < 10,
            decimal_text(rest) + low@.reverse() == decimal_text(n),
            text@ == decimal_text(rest) + low@.reverse().subrange(0, low.len() - i),
        decreases i,
    {
        i -= 1;
        push_char(&mut text, low[i]);
        assert(low@.reverse()[low.len() - 1 - i] == low@[i as int]);
        assert(text@ =~= decimal_text(rest) + low@.reverse().subrange(0, low.len() - i));
    }
    assert(low@.reverse().subrange(0, low.len() as int) =~= low@.reverse());
    text
}

/// The digit that a character stands for.
pub open spec fn digit_of(c: char) -> Option<nat> {
    if c == '0' {
        Some(0)
    } else if c == '1' {
        Some(1)
    } else if c == '2' {
        Some(2)
    } else if c == '3' {
        Some(3)
    } else if c == '4' {
        Some(4)
    } else if c == '5' {
        Some(5)
    } else if c == '6' {
        Some(6)
    } else if c == '7' {
        Some(7)
    } else if c == '8' {
        Some(8)
    } else if c == '9' {
        Some(9)
    } else {
        None
    }
}

/// The number that a run of decimal digits stands for, however large, and
/// nothing where a character is no digit. The empty run stands for zero.
pub open spec fn digits_value(s: Seq<char>) -> Option<nat>
    decreases s.len(),
{
    if s.len() == 0 {
        Some(0)
    } else {
        match (digits_value(s.drop_last()), digit_of(s.last())) {
            (Some(v), Some(d)) => Some(v * 10 + d),
            _ => None,
        }
    }
}

/// The number that a text stands for where it is at least one decimal
/// digit and nothing else, and the number is at most `limit`.
pub open spec fn number_upto(s: Seq<char>, limit: nat) -> Option<nat> {
    match digits_value(s) {
        Some(v) if s.len() > 0 && v <= limit => Some(v),
        _ => None,
    }
}

/// The `usize` that a text stands for: decimal digits, with or without a
/// `+` before them, and nothing else.
pub open spec fn usize_of(s: Seq<char>) -> Option<usize> {
    let digits = if s.len() > 0 && s[0] == '+' {
        s.drop_first()
    } else {
        s
    };
    match number_upto(digits, usize::MAX as nat) {
        Some(v) => Some(v as usize),
        None => None,
    }
}

/// The `i32` that a text stands for: decimal digits, with or without a `+`
/// or a `-` before them, and nothing else.
pub open spec fn i32_of(s: Seq<char>) -> Option<i32> {
    if s.len() > 0 && s[0] == '-' {
        match number_upto(s.drop_first(), 0x8000_0000) {
            Some(v) => Some((0 - v) as i32),
            None => None,
        }
    } else {
        let digits = if s.len() > 0 && s[0] == '+' {
            s.drop_first()
        } else {
            s
        };
        match number_upto(digits, 0x7fff_ffff) {
            Some(v) => Some(v as i32),
            None => None,
        }
    }
}

/// A longer run of digits stands for no smaller number, and a run with a
/// character that is no digit stays without a number however it goes on.
proof fn lemma_digits_grow(s: Seq<char>, k: int)
    requires
        0 <= k <= s.len(),
    ensures
        digits_value(s.subrange(0, k)) is None ==> digits_value(s) is None,
        digits_value(s) is Some ==> digits_value(s.subrange(0, k)) is Some && digits_value(
            s.subrange(0, k),
        )->0 <= digits_value(s)->0,
    decreases s.len() - k,
{
    if k == s.len() {
        assert(s.subrange(0, k) =~= s);
    } else {
        lemma_digits_grow(s.drop_last(), k);
        assert(s.drop_last().subrange(0, k) =~= s.subrange(0, k));
    }
}

fn digit_value(c: char) -> (d: Option<u64>)
    ensures
        match d {
            Some(v) => v < 10 && digit_of(c) == Some(v as nat),
            None => digit_of(c) is None,
        },
{
    if c == '0' {
        Some(0)
    } else if c == '1' {
        Some(1)
    } else if c == '2' {
        Some(2)
    } else if c == '3' {
        Some(3)
    } else if c == '4' {
        Some(4)
    } else if c == '5' {
        Some(5)
    } else if c == '6' {
        Some(6)
    } else if c == '7' {
        Some(7)
    } else if c == '8' {
        Some(8)
    } else if c == '9' {
        Some(9)
    } else {
        None
    }
}

/// Reads the characters from `from` on as a number of at most `limit`.
fn read_number(chars: &Vec<char>, from: usize, limit: u64) -> (r: Option<u64>)
    requires
        from <= chars.len(),
    ensures
        match r {
            Some(v) => number_upto(chars@.subrange(from as int, chars.len() as int), limit as nat)
                == Some(v as nat),
            None => number_upto(chars@.subrange(from as int, chars.len() as int), limit as nat)
                is None,
        },
{
    let ghost run = chars@.subrange(from as int, chars.len() as int);
    if from == chars.len() {
        return None;
    }
    let mut value: u64 = 0;
    let mut i: usize = from;
    assert(run.subrange(0, 0) =~= Seq::<char>::empty());
    while i < chars.len()
        invariant
            from <= i <= chars.len(),
            run == chars@.subrange(from as int, chars.len() as int),
            digits_value(run.subrange(0, i - from)) == Some(value as nat),
            value <= limit,
        decreases chars.len() - i,
    {
        proof {
            lemma_digits_grow(run, i - from + 1);
            assert(run.subrange(0, i - from + 1).drop_last() =~= run.subrange(0, i - from));
            assert(run.subrange(0, i - from + 1).last() == chars[i as int]);
        }
        match digit_value(chars[i]) {
            Some(d) => {
                if d > limit || value > (limit - d) / 10 {
                    return None;
                }
                value = value * 10 + d;
            },
            None => {
                return None;
            },
        }
        i += 1;
    }
    assert(run.subrange(0, chars.len() - from) =~= run);
    Some(value)
}

/// Reads a `usize` from a text, as `str::parse` does.
pub fn parse_usize(s: &str) -> (r: Option<usize>)
    ensures
        r == usize_of(s@),
{
    let chars = chars_of(s);
    let from: usize = if chars.len() > 0 && chars[0] == '+' { 1 } else { 0 };
    assert(chars@.subrange(0, chars.len() as int) =~= s@);
    assert(chars@.subrange(1, chars.len() as int) =~= s@.drop_first());
    match read_number(&chars, from, usize::MAX as u64) {
        Some(v) => Some(v as usize),
        None => None,
    }
}

/// Reads an `i32` from a text, as `str::parse` does.
pub fn parse_i32(s: &str) -> (r: Option<i32>)
    ensures
        r == i32_of(s@),
{
    let chars = chars_of(s);
    assert(chars@.subrange(0, chars.len() as int) =~= s@);
    assert(chars@.subrange(1, chars.len() as int) =~= s@.drop_first());
    if chars.len() > 0 && chars[0] == '-' {
        match read_number(&chars, 1, 0x8000_0000) {
            Some(v) => Some((0 - (v as i64)) as i32),
            None => None,
        }
    } else {
        let from: usize = if chars.len() > 0 && chars[0] == '+' { 1 } else { 0 };
        match read_number(&chars, from, 0x7fff_ffff) {
            Some(v) => Some(v as i32),
            None => None,
        }
    }
}

/// The characters of `s`, one by one.
pub fn chars_of(s: &str) -> (r: Vec<char>)
    ensures
        r@ == s@,
{
    let n = s.unicode_len();
    let mut out: Vec<char> = Vec::new();
    let mut i: usize = 0;
    while i < n
        invariant
            n == s@.len(),
            i <= n,
            out@ == s@.subrange(0, i as int),
        decreases n - i,
    {
        out.push(s.get_char(i));
        assert(out@ =~= s@.subrange(0, i + 1));
        i += 1;
    }
    assert(out@ =~= s@);
    out
}

/// The texts of `parts` with `sep` between each two neighbours.
pub open spec fn joined(parts: Seq<Seq<char>>, sep: Seq<char>) -> Seq<char>
    decreases parts.len(),
{
    if parts.len() == 0 {
        Seq::empty()
    } else if parts.len() == 1 {
        parts[0]
    } else {
        joined(parts.drop_last(), sep) + sep + parts.last()
    }
}

/// Joins `parts[from..]` with `sep` between each two neighbours.
pub fn join_from(parts: &Vec<String>, from: usize, sep: &str) -> (r: String)
    ensures
        r@ == joined(
            parts@.map_values(|p: String| p@).subrange(
                if from <= parts.len() { from as int } else { parts.len() as int },
                parts.len() as int,
            ),
            sep@,
        ),
{
    let ghost texts = parts@.map_values(|p: String| p@);
    let mut out = String::new();
    if from >= parts.len() {
        assert(texts.subrange(parts.len() as int, parts.len() as int).len() == 0);
        return out;
    }
    let mut i: usize = from;
    while i < parts.len()
        invariant
            from <= i <= parts.len(),
            from < parts.len(),
            texts == parts@.map_values(|p: String| p@),
            out@ == joined(texts.subrange(from as int, i as int), sep@),
        decreases parts.len() - i,
    {
        let ghost done = texts.subrange(from as int, i as int);
        let ghost next = texts.subrange(from as int, i + 1);
        assert(next.drop_last() =~= done);
        assert(next.last() == parts[i as int]@);
        if i > from {
            out.append(sep);
        } else {
            assert(done.len() == 0);
            assert(out@ =~= Seq::<char>::empty());
        }
        out.append(parts[i].as_str());
        assert(out@ =~= joined(next, sep@)) by {
            if i == from {
                assert(next.len() == 1);
                assert(next[0] == parts[i as int]@);
            }
        }
        i += 1;
    }
    out
}

} // verus!

//! Text primitives: white space, trimming, words, joining, searching and
//! decimal numbers, each with its meaning on sequences of characters.

use vstd::prelude::*;

verus! {

/// Whether `c` is white space: a character with the Unicode property
/// `White_Space`.
pub open spec fn is_space(c: char) -> bool {
    let code = c as u32;
    ||| 0x09 <= code <= 0x0D
    ||| code == 0x20
    ||| code == 0x85
    ||| code == 0xA0
    ||| code == 0x1680
    ||| 0x2000 <= code <= 0x200A
    ||| code == 0x2028
    ||| code == 0x2029
    ||| code == 0x202F
    ||| code == 0x205F
    ||| code == 0x3000
}

/// How many characters of white space `s` begins with.
pub open spec fn leading_spaces(s: Seq<char>) -> nat
    decreases s.len(),
{
    if s.len() > 0 && is_space(s[0]) {
        1 + leading_spaces(s.drop_first())
    } else {
        0
    }
}

/// How many characters of white space `s` ends with.
pub open spec fn trailing_spaces(s: Seq<char>) -> nat
    decreases s.len(),
{
    if s.len() > 0 && is_space(s.last()) {
        1 + trailing_spaces(s.drop_last())
    } else {
        0
    }
}

/// `s` without the white space at its two ends.
pub open spec fn trimmed(s: Seq<char>) -> Seq<char> {
    let rest = s.skip(leading_spaces(s) as int);
    rest.take(rest.len() - trailing_spaces(rest))
}

/// The words that `s` holds after `current`, a word already begun: the
/// maximal runs of characters that are not white space, in order.
pub open spec fn words_after(current: Seq<char>, s: Seq<char>) -> Seq<Seq<char>>
    decreases s.len(),
{
    let done = if current.len() > 0 {
        seq![current]
    } else {
        Seq::<Seq<char>>::empty()
    };
    if s.len() == 0 {
        done
    } else if is_space(s[0]) {
        done + words_after(Seq::<char>::empty(), s.drop_first())
    } else {
        words_after(current.push(s[0]), s.drop_first())
    }
}

/// The words of `s`: its maximal runs of characters that are not white space.
pub open spec fn words(s: Seq<char>) -> Seq<Seq<char>> {
    words_after(Seq::<char>::empty(), s)
}

/// The `parts` in order, with `sep` between each two neighbours.
pub open spec fn joined(parts: Seq<Seq<char>>, sep: Seq<char>) -> Seq<char>
    decreases parts.len(),
{
    if parts.len() == 0 {
        Seq::<char>::empty()
    } else if parts.len() == 1 {
        parts[0]
    } else {
        joined(parts.drop_last(), sep) + sep + parts.last()
    }
}

/// Whether `needle` stands in `hay` at position `at`.
pub open spec fn occurs_at(hay: Seq<char>, needle: Seq<char>, at: int) -> bool {
    &&& 0 <= at
    &&& at + needle.len() <= hay.len()
    &&& hay.subrange(at, at + needle.len()) == needle
}

/// The position of the first occurrence of `needle` in `hay`, or the length
/// of `hay` where there is none.
pub open spec fn first_occurrence(hay: Seq<char>, needle: Seq<char>) -> int
    decreases hay.len(),
{
    if hay.len() == 0 || occurs_at(hay, needle, 0) {
        0
    } else {
        1 + first_occurrence(hay.drop_first(), needle)
    }
}

/// What stands in `hay` before the first occurrence of `needle`; all of
/// `hay` where there is none.
pub open spec fn before_first(hay: Seq<char>, needle: Seq<char>) -> Seq<char> {
    hay.take(first_occurrence(hay, needle))
}

/// Whether `c` is one of the ten decimal digits.
pub open spec fn is_digit(c: char) -> bool {
    '0' <= c <= '9'
}

/// The digit that stands for `d`, a number below ten.
pub open spec fn digit(d: nat) -> char {
    if d == 0 {
        '0'
    } else if d == 1 {
        '1'
    } else if d == 2 {
        '2'
    } else if d == 3 {
        '3'
    } else if d == 4 {
        '4'
    } else if d == 5 {
        '5'
    } else if d == 6 {
        '6'
    } else if d == 7 {
        '7'
    } else if d == 8 {
        '8'
    } else {
        '9'
    }
}

/// The number that the digit `c` stands for.
pub open spec fn digit_value(c: char) -> nat {
    (c as u32 - '0' as u32) as nat
}

/// `n` in decimal, without leading zeros.
pub open spec fn decimal(n: nat) -> Seq<char>
    decreases n,
{
    if n < 10 {
        seq![digit(n)]
    } else {
        decimal(n / 10).push(digit(n % 10))
    }
}

/// Whether `s` is made of decimal digits only.
pub open spec fn all_digits(s: Seq<char>) -> bool {
    forall|i: int| 0 <= i < s.len() ==> is_digit(#[trigger] s[i])
}

/// The number that the digits `s` write in decimal.
pub open spec fn decimal_value(s: Seq<char>) -> nat
    decreases s.len(),
{
    if s.len() == 0 {
        0
    } else {
        decimal_value(s.drop_last()) * 10 + digit_value(s.last())
    }
}

/// `s` without the one plus sign that may stand before a number.
pub open spec fn unsigned_part(s: Seq<char>) -> Seq<char> {
    if s.len() > 0 && s[0] == '+' {
        s.drop_first()
    } else {
        s
    }
}

/// The index that `s` writes: an optional plus sign, then one or more
/// decimal digits, of a number that fits in `usize`. `None` for any other text.
pub open spec fn parsed_index(s: Seq<char>) -> Option<nat> {
    let digits = unsigned_part(s);
    if digits.len() > 0 && all_digits(digits) && decimal_value(digits) <= usize::MAX {
        Some(decimal_value(digits))
    } else {
        None
    }
}

/// The views of the strings of `v`.
pub open spec fn texts(v: Seq<String>) -> Seq<Seq<char>> {
    v.map_values(|s: String| s@)
}

/// The views of a sequence that grew by one string.
pub proof fn lemma_texts_push(v: Seq<String>, s: String)
    ensures
        texts(v.push(s)) == texts(v).push(s@),
{
}

/// The run of white space at the start of a text, from where it ends.
pub proof fn lemma_leading_spaces(s: Seq<char>, count: int)
    requires
        0 <= count <= s.len(),
        forall|j: int| 0 <= j < count ==> is_space(#[trigger] s[j]),
        count < s.len() ==> !is_space(s[count]),
    ensures
        leading_spaces(s) == count,
    decreases count,
{
    if count > 0 {
        let rest = s.drop_first();
        lemma_leading_spaces(rest, count - 1);
    }
}

/// The run of white space at the end of a text, from where it begins.
pub proof fn lemma_trailing_spaces(s: Seq<char>, count: int)
    requires
        0 <= count <= s.len(),
        forall|j: int| s.len() - count <= j < s.len() ==> is_space(#[trigger] s[j]),
        count < s.len() ==> !is_space(s[s.len() - count - 1]),
    ensures
        trailing_spaces(s) == count,
    decreases count,
{
    if count > 0 {
        let rest = s.drop_last();
        lemma_trailing_spaces(rest, count - 1);
    }
}

/// A text that neither begins nor ends with white space is trimmed already.
pub proof fn lemma_trimmed_of_bare(s: Seq<char>)
    requires
        s.len() > 0 ==> !is_space(s[0]) && !is_space(s.last()),
    ensures
        trimmed(s) == s,
{
    lemma_leading_spaces(s, 0);
    assert(s.skip(0) =~= s);
    lemma_trailing_spaces(s, 0);
    assert(s.take(s.len() as int) =~= s);
}

/// Trimming keeps a start of the text that begins and ends with no white
/// space.
pub proof fn lemma_trimmed_keeps_start(s: Seq<char>, k: int)
    requires
        0 < k <= s.len(),
        !is_space(s[0]),
        !is_space(s[k - 1]),
    ensures
        trimmed(s).len() >= k,
        trimmed(s).take(k) == s.take(k),
{
    lemma_leading_spaces(s, 0);
    assert(s.skip(0) =~= s);
    lemma_count_bounds(s);
    let kept = s.len() - trailing_spaces(s);
    if kept < k {
        assert(is_space(s[k - 1]));
    }
    assert(trimmed(s) == s.take(kept));
    assert(s.take(kept).take(k) =~= s.take(k));
}

/// A trimmed text neither begins nor ends with white space, and trimming it
/// again changes nothing.
pub proof fn lemma_trimmed_is_bare(s: Seq<char>)
    ensures
        trimmed(s).len() > 0 ==> !is_space(trimmed(s)[0]) && !is_space(trimmed(s).last()),
        trimmed(trimmed(s)) == trimmed(s),
{
    lemma_count_bounds(s);
    lemma_count_bounds(s.skip(leading_spaces(s) as int));
}

/// The white space counted at either end of `s` lies in `s`, and what
/// follows the leading run, or precedes the trailing run, is no white space.
pub proof fn lemma_count_bounds(s: Seq<char>)
    ensures
        leading_spaces(s) <= s.len(),
        trailing_spaces(s) <= s.len(),
        forall|j: int| 0 <= j < leading_spaces(s) ==> is_space(#[trigger] s[j]),
        leading_spaces(s) < s.len() ==> !is_space(s[leading_spaces(s) as int]),
        forall|j: int| s.len() - trailing_spaces(s) <= j < s.len() ==> is_space(#[trigger] s[j]),
        trailing_spaces(s) < s.len() ==> !is_space(s[s.len() - trailing_spaces(s) - 1]),
    decreases s.len(),
{
    if s.len() > 0 {
        let front = s.drop_first();
        let back = s.drop_last();
        lemma_count_bounds(front);
        lemma_count_bounds(back);
        if is_space(s[0]) {
            assert forall|j: int| 0 <= j < leading_spaces(s) implies is_space(#[trigger] s[j]) by {
                if j > 0 {
                    assert(s[j] == front[j - 1]);
                }
            }
        }
        if is_space(s.last()) {
            assert forall|j: int| s.len() - trailing_spaces(s) <= j < s.len() implies is_space(
                #[trigger] s[j],
            ) by {
                if j < s.len() - 1 {
                    assert(s[j] == back[j]);
                }
            }
        }
    }
}

/// Whether `c` is white space.
pub fn is_space_char(c: char) -> (b: bool)
    ensures
        b == is_space(c),
{
    let code: u32 = c as u32;
    (0x09 <= code && code <= 0x0D) || code == 0x20 || code == 0x85 || code == 0xA0 || code
        == 0x1680 || (0x2000 <= code && code <= 0x200A) || code == 0x2028 || code == 0x2029
        || code == 0x202F || code == 0x205F || code == 0x3000
}

/// The characters of `s`, in order.
pub fn chars_of(s: &str) -> (chars: Vec<char>)
    ensures
        chars@ == s@,
{
    let mut chars: Vec<char> = Vec::new();
    for c in it: s.chars()
        invariant
            it.seq() == s@,
            chars@ == it.seq().take(it.index()),
    {
        chars.push(c);
    }
    chars
}

/// Whether `a` and `b` hold the same characters.
pub fn same_text(a: &str, b: &str) -> (same: bool)
    ensures
        same == (a@ == b@),
{
    let left = chars_of(a);
    let right = chars_of(b);
    if left.len() != right.len() {
        return false;
    }
    let mut i: usize = 0;
    while i < left.len()
        invariant
            i <= left.len(),
            left.len() == right.len(),
            left@ == a@,
            right@ == b@,
            forall|j: int| 0 <= j < i ==> left@[j] == right@[j],
        decreases left.len() - i,
    {
        if left[i] != right[i] {
            return false;
        }
        i = i + 1;
    }
    assert(left@ =~= right@);
    true
}

/// `s` without the white space at its two ends.
pub fn trim(s: &str) -> (t: &str)
    ensures
        t@ == trimmed(s@),
{
    let chars = chars_of(s);
    let mut start: usize = 0;
    while start < chars.len() && is_space_char(chars[start])
        invariant
            start <= chars.len(),
            forall|j: int| 0 <= j < start ==> is_space(#[trigger] chars@[j]),
        decreases chars.len() - start,
    {
        start = start + 1;
    }
    let mut end: usize = chars.len();
    while end > start && is_space_char(chars[end - 1])
        invariant
            start <= end <= chars.len(),
            forall|j: int| end <= j < chars.len() ==> is_space(#[trigger] chars@[j]),
        decreases end,
    {
        end = end - 1;
    }
    proof {
        lemma_leading_spaces(chars@, start as int);
        lemma_trailing_spaces(chars@.skip(start as int), chars.len() - end);
    }
    s.substring_char(start, end)
}

/// A copy of `s`.
pub fn owned(s: &str) -> (text: String)
    ensures
        text@ == s@,
{
    s.to_owned()
}

/// A copy of the strings of `v`.
pub fn clone_texts(v: &Vec<String>) -> (copy: Vec<String>)
    ensures
        copy@ == v@,
{
    let mut copy: Vec<String> = Vec::new();
    let mut i: usize = 0;
    while i < v.len()
        invariant
            i <= v.len(),
            copy@ == v@.take(i as int),
        decreases v.len() - i,
    {
        copy.push(v[i].clone());
        i = i + 1;
    }
    copy
}

/// A copy of `s`, where there is one.
pub fn clone_optional(s: &Option<String>) -> (copy: Option<String>)
    ensures
        copy == *s,
{
    match s {
        Some(text) => Some(text.clone()),
        None => None,
    }
}

/// The words of `s`: its maximal runs of characters that are not white space.
pub fn split_words(s: &str) -> (found: Vec<String>)
    ensures
        texts(found@) == words(s@),
{
    let chars = chars_of(s);
    let mut found: Vec<String> = Vec::new();
    let mut start: usize = 0;
    let mut i: usize = 0;
    proof {
        assert(chars@.skip(0) == chars@);
        assert(chars@.subrange(0, 0) == Seq::<char>::empty());
    }
    while i < chars.len()
        invariant
            start <= i <= chars.len(),
            chars@ == s@,
            words(s@) == texts(found@) + words_after(
                chars@.subrange(start as int, i as int),
                chars@.skip(i as int),
            ),
        decreases chars.len() - i,
    {
        let ghost current = chars@.subrange(start as int, i as int);
        let ghost rest = chars@.skip(i as int);
        assert(rest.drop_first() == chars@.skip(i + 1));
        if is_space_char(chars[i]) {
            if start < i {
                let word = owned(s.substring_char(start, i));
                found.push(word);
            }
            start = i + 1;
            assert(chars@.subrange(start as int, start as int) == Seq::<char>::empty());
        } else {
            assert(current.push(chars@[i as int]) == chars@.subrange(start as int, i + 1));
        }
        i = i + 1;
    }
    if start < i {
        let word = owned(s.substring_char(start, i));
        found.push(word);
    }
    found
}

/// The `parts` in order, with `sep` between each two neighbours.
pub fn join(parts: &Vec<String>, sep: &str) -> (text: String)
    ensures
        text@ == joined(texts(parts@), sep@),
{
    let mut text = String::new();
    let mut i: usize = 0;
    while i < parts.len()
        invariant
            i <= parts.len(),
            text@ == joined(texts(parts@).take(i as int), sep@),
        decreases parts.len() - i,
    {
        let ghost before = texts(parts@).take(i as int);
        let ghost after = texts(parts@).take(i + 1);
        assert(after.drop_last() == before);
        if i > 0 {
            text.append(sep);
        }
        text.append(parts[i].as_str());
        i = i + 1;
    }
    assert(texts(parts@).take(parts.len() as int) == texts(parts@));
    text
}

/// Where `needle` first occurs in `hay`, once it is known not to occur
/// before `from`.
pub proof fn lemma_first_occurrence(hay: Seq<char>, needle: Seq<char>, from: int)
    requires
        0 <= from <= hay.len(),
        forall|k: int| 0 <= k < from ==> !occurs_at(hay, needle, k),
        from == hay.len() || occurs_at(hay, needle, from),
    ensures
        first_occurrence(hay, needle) == from,
    decreases from,
{
    if from > 0 {
        let rest = hay.drop_first();
        assert forall|k: int| 0 <= k < from - 1 implies !occurs_at(rest, needle, k) by {
            assert(!occurs_at(hay, needle, k + 1));
            if k + needle.len() <= rest.len() {
                assert(rest.subrange(k, k + needle.len()) == hay.subrange(
                    k + 1,
                    k + 1 + needle.len(),
                ));
            }
        }
        if from < hay.len() {
            assert(rest.subrange(from - 1, from - 1 + needle.len()) == hay.subrange(
                from,
                from + needle.len(),
            ));
        }
        lemma_first_occurrence(rest, needle, from - 1);
    }
}

/// Where a text is first found: at a position in the text or at its end,
/// at that position if in it, and at none before.
pub proof fn lemma_first_occurrence_is_first(hay: Seq<char>, needle: Seq<char>)
    ensures
        0 <= first_occurrence(hay, needle) <= hay.len(),
        first_occurrence(hay, needle) < hay.len() ==> occurs_at(
            hay,
            needle,
            first_occurrence(hay, needle),
        ),
        forall|k: int|
            0 <= k < first_occurrence(hay, needle) ==> !#[trigger] occurs_at(hay, needle, k),
    decreases hay.len(),
{
    if hay.len() == 0 || occurs_at(hay, needle, 0) {
    } else {
        let rest = hay.drop_first();
        let found = first_occurrence(rest, needle);
        lemma_first_occurrence_is_first(rest, needle);
        if found < rest.len() {
            assert(hay.subrange(found + 1, found + 1 + needle.len()) == rest.subrange(
                found,
                found + needle.len(),
            ));
        }
        assert forall|k: int| 0 <= k < found + 1 implies !#[trigger] occurs_at(
            hay,
            needle,
            k,
        ) by {
            if k > 0 {
                assert(!occurs_at(rest, needle, k - 1));
                if k + needle.len() <= hay.len() {
                    assert(hay.subrange(k, k + needle.len()) == rest.subrange(
                        k - 1,
                        k - 1 + needle.len(),
                    ));
                }
            }
        }
    }
}

/// Whether `needle` stands at a position of a text does not depend on what
/// follows the text, where the position leaves room for `needle` in it.
pub proof fn lemma_occurrence_is_local(
    text: Seq<char>,
    rest: Seq<char>,
    needle: Seq<char>,
    at: int,
)
    requires
        0 <= at,
        at + needle.len() <= text.len(),
    ensures
        occurs_at(text + rest, needle, at) == occurs_at(text, needle, at),
{
    assert((text + rest).subrange(at, at + needle.len()) =~= text.subrange(
        at,
        at + needle.len(),
    ));
}

/// Whether `needle` stands at a position of a text does not depend on what
/// precedes the text: the position moves by the length of what precedes.
pub proof fn lemma_occurrence_shifts(
    prefix: Seq<char>,
    text: Seq<char>,
    needle: Seq<char>,
    at: int,
)
    requires
        0 <= at,
    ensures
        occurs_at(prefix + text, needle, prefix.len() + at) == occurs_at(text, needle, at),
{
    if at + needle.len() <= text.len() {
        assert((prefix + text).subrange(prefix.len() + at, prefix.len() + at + needle.len())
            =~= text.subrange(at, at + needle.len()));
    }
}

/// A text is not found in a start of `hay` that lacks its first character:
/// what precedes its first occurrence begins with that start.
pub proof fn lemma_not_found_in_start(hay: Seq<char>, needle: Seq<char>, k: int)
    requires
        needle.len() > 0,
        0 <= k <= hay.len(),
        forall|j: int| 0 <= j < k ==> #[trigger] hay[j] != needle[0],
    ensures
        first_occurrence(hay, needle) >= k,
        before_first(hay, needle).len() >= k,
        before_first(hay, needle).take(k) == hay.take(k),
{
    lemma_first_occurrence_is_first(hay, needle);
    let at = first_occurrence(hay, needle);
    if at < k {
        assert(occurs_at(hay, needle, at));
        assert(hay.subrange(at, at + needle.len())[0] == needle[0]);
        assert(hay.subrange(at, at + needle.len())[0] == hay[at]);
    }
    assert(hay.take(at).take(k) =~= hay.take(k));
}

/// What precedes the first occurrence of the character `c`, which stands
/// at position `n` and at none before.
pub proof fn lemma_before_first_char(s: Seq<char>, c: char, n: int)
    requires
        0 <= n < s.len(),
        s[n] == c,
        forall|j: int| 0 <= j < n ==> #[trigger] s[j] != c,
    ensures
        before_first(s, seq![c]) == s.take(n),
{
    let needle = seq![c];
    assert forall|k: int| 0 <= k < n implies !occurs_at(s, needle, k) by {
        if occurs_at(s, needle, k) {
            assert(s.subrange(k, k + 1)[0] == s[k]);
            assert(needle[0] == c);
        }
    }
    assert(s.subrange(n, n + 1) =~= needle);
    lemma_first_occurrence(s, needle, n);
}

/// Whether `needle` stands in `hay` at position `at`.
pub fn matches_at(hay: &Vec<char>, needle: &Vec<char>, at: usize) -> (found: bool)
    ensures
        found == occurs_at(hay@, needle@, at as int),
{
    if needle.len() > hay.len() || at > hay.len() - needle.len() {
        return false;
    }
    let mut j: usize = 0;
    while j < needle.len()
        invariant
            j <= needle.len(),
            at + needle.len() <= hay.len(),
            forall|k: int| 0 <= k < j ==> hay@[at + k] == needle@[k],
        decreases needle.len() - j,
    {
        if hay[at + j] != needle[j] {
            return false;
        }
        j = j + 1;
    }
    assert(hay@.subrange(at as int, at + needle.len()) =~= needle@);
    true
}

/// The position of the first occurrence of `needle` in `hay`, or the length
/// of `hay` where there is none.
pub fn first_index(hay: &Vec<char>, needle: &Vec<char>) -> (at: usize)
    ensures
        at == first_occurrence(hay@, needle@),
        at <= hay.len(),
{
    let mut at: usize = 0;
    while at < hay.len() && !matches_at(hay, needle, at)
        invariant
            at <= hay.len(),
            forall|k: int| 0 <= k < at ==> !occurs_at(hay@, needle@, k),
        decreases hay.len() - at,
    {
        at = at + 1;
    }
    proof {
        lemma_first_occurrence(hay@, needle@, at as int);
    }
    at
}

/// What stands in `hay` before the first occurrence of `needle`; all of
/// `hay` where there is none.
pub fn before<'a>(hay: &'a str, needle: &str) -> (head: &'a str)
    ensures
        head@ == before_first(hay@, needle@),
{
    let text = chars_of(hay);
    let pattern = chars_of(needle);
    let at = first_index(&text, &pattern);
    hay.substring_char(0, at)
}

/// The digit that stands for `d`, as a text of one character.
fn digit_text(d: usize) -> (text: &'static str)
    requires
        d < 10,
    ensures
        text@ == seq![digit(d as nat)],
{
    proof {
        reveal_strlit("0");
        reveal_strlit("1");
        reveal_strlit("2");
        reveal_strlit("3");
        reveal_strlit("4");
        reveal_strlit("5");
        reveal_strlit("6");
        reveal_strlit("7");
        reveal_strlit("8");
        reveal_strlit("9");
    }
    let text = if d == 0 {
        "0"
    } else if d == 1 {
        "1"
    } else if d == 2 {
        "2"
    } else if d == 3 {
        "3"
    } else if d == 4 {
        "4"
    } else if d == 5 {
        "5"
    } else if d == 6 {
        "6"
    } else if d == 7 {
        "7"
    } else if d == 8 {
        "8"
    } else {
        "9"
    };
    text
}

/// `n` in decimal, without leading zeros.
pub fn decimal_text(n: usize) -> (text: String)
    ensures
        text@ == decimal(n as nat),
    decreases n,
{
    if n < 10 {
        owned(digit_text(n))
    } else {
        let mut text = decimal_text(n / 10);
        text.append(digit_text(n % 10));
        text
    }
}

/// The digits of a number are one or more, are digits, and write that number.
pub proof fn lemma_decimal_round_trip(n: nat)
    ensures
        decimal(n).len() > 0,
        all_digits(decimal(n)),
        decimal_value(decimal(n)) == n,
    decreases n,
{
    if n < 10 {
        assert(decimal_value(decimal(n).drop_last()) == 0);
    } else {
        lemma_decimal_round_trip(n / 10);
        assert(decimal(n).drop_last() == decimal(n / 10));
    }
}

/// A number that fits in `usize` is read back from its digits.
pub proof fn lemma_parse_decimal(n: nat)
    requires
        n <= usize::MAX,
    ensures
        parsed_index(decimal(n)) == Some(n),
{
    lemma_decimal_round_trip(n);
}

/// The digits before any position write no more than all the digits do.
pub proof fn lemma_value_grows(s: Seq<char>, k: int)
    requires
        0 <= k <= s.len(),
    ensures
        decimal_value(s.take(k)) <= decimal_value(s),
    decreases s.len() - k,
{
    if k < s.len() {
        lemma_value_grows(s.drop_last(), k);
        assert(s.drop_last().take(k) == s.take(k));
    } else {
        assert(s.take(k) == s);
    }
}

/// The index that `s` writes: an optional plus sign, then one or more
/// decimal digits, of a number that fits in `usize`. `None` for any other text.
pub fn parse_index(s: &str) -> (index: Option<usize>)
    ensures
        match index {
            Some(n) => parsed_index(s@) == Some(n as nat),
            None => parsed_index(s@) is None,
        },
{
    let chars = chars_of(s);
    let start: usize = if chars.len() > 0 && chars[0] == '+' {
        1
    } else {
        0
    };
    let ghost digits = unsigned_part(s@);
    if start == chars.len() {
        return None;
    }
    let mut value: usize = 0;
    let mut i: usize = start;
    while i < chars.len()
        invariant
            start <= i <= chars.len(),
            digits == chars@.skip(start as int),
            digits == unsigned_part(s@),
            all_digits(chars@.subrange(start as int, i as int)),
            value == decimal_value(chars@.subrange(start as int, i as int)),
        decreases chars.len() - i,
    {
        let c = chars[i];
        let ghost read = chars@.subrange(start as int, i as int);
        let ghost next = chars@.subrange(start as int, i + 1);
        assert(next.drop_last() == read);
        if !('0' <= c && c <= '9') {
            assert(!is_digit(digits[i - start]));
            return None;
        }
        let d: usize = (c as u32 - '0' as u32) as usize;
        if value > (usize::MAX - d) / 10 {
            proof {
                assert(digits.take(i + 1 - start) == next);
                lemma_value_grows(digits, i + 1 - start);
            }
            return None;
        }
        value = value * 10 + d;
        i = i + 1;
    }
    Some(value)
}

} // verus!

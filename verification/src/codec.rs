//! The selector protocol: the catalog goes to the selector as one line of
//! text per entry, and the one line that comes back names an entry by the
//! index that its line begins with.
//!
//! The index alone decides: it is read from the start of the reply, before
//! the first delimiter and the first colon, and it is read back right
//! whatever the fields hold. The fields after it serve the selector, which
//! shows and searches the first three and hands the second and the fourth to
//! the preview. They are written as they are, without escapes. An entry whose
//! fields could not be told apart in its line is kept out of the catalog when
//! its source is loaded; `is_separable` is the test.

use crate::catalog::{AllCommandSnippets, EntryView, FullCommandSnippet};
use crate::text::{
    before, before_first, chars_of, decimal, decimal_text, first_index, first_occurrence,
    is_digit, is_space, join, joined, lemma_before_first_char, lemma_decimal_round_trip,
    lemma_first_occurrence, lemma_first_occurrence_is_first, lemma_not_found_in_start,
    lemma_occurrence_is_local, lemma_occurrence_shifts, lemma_texts_push,
    lemma_trimmed_keeps_start, lemma_trimmed_of_bare, occurs_at, owned, parse_index,
    parsed_index, texts, trim, trimmed,
};
use vstd::prelude::*;

verus! {

/// The delimiter between the fields of a line: a leaf, four box-drawing
/// dashes and a leaf, which no command, path or label is likely to hold.
pub open spec fn delimiter() -> Seq<char> {
    seq!['\u{1F343}', '\u{2500}', '\u{2500}', '\u{2500}', '\u{2500}', '\u{1F343}']
}

/// What follows the index at the start of a line.
pub open spec fn index_mark() -> Seq<char> {
    seq![':', ' ']
}

/// The first field after the index: the executable, or `None` without one.
pub open spec fn shown_executable(entry: EntryView) -> Seq<char> {
    match entry.snippet.executable {
        Some(executable) => executable,
        None => "None"@,
    }
}

/// The third field: the labels with single spaces between them, or
/// `No labels` without any.
pub open spec fn shown_labels(entry: EntryView) -> Seq<char> {
    if entry.snippet.labels.len() == 0 {
        "No labels"@
    } else {
        joined(entry.snippet.labels, seq![' '])
    }
}

/// Whether `field` can stand before a delimiter: of the field and the
/// delimiter after it, the first delimiter is the one after it.
pub open spec fn ends_cleanly(field: Seq<char>) -> bool {
    first_occurrence(field + delimiter(), delimiter()) == field.len()
}

/// Whether `text` holds no delimiter.
pub open spec fn holds_no_delimiter(text: Seq<char>) -> bool {
    first_occurrence(text, delimiter()) == text.len()
}

/// Whether `text` holds no line feed.
pub open spec fn one_line(text: Seq<char>) -> bool {
    forall|i: int| 0 <= i < text.len() ==> #[trigger] text[i] != '\n'
}

/// Whether the fields of the line of `entry` can be told apart: each is
/// one line, none of the first three runs into the delimiter after it, and
/// the last holds no delimiter.
pub open spec fn separable(entry: EntryView) -> bool {
    &&& ends_cleanly(shown_executable(entry))
    &&& ends_cleanly(entry.name)
    &&& ends_cleanly(shown_labels(entry))
    &&& holds_no_delimiter(entry.config_file)
    &&& one_line(shown_executable(entry))
    &&& one_line(entry.name)
    &&& one_line(shown_labels(entry))
    &&& one_line(entry.config_file)
}

/// The parts of `line` between the occurrences of `separator`, each
/// occurrence found after the one before it.
pub open spec fn split_at(line: Seq<char>, separator: Seq<char>) -> Seq<Seq<char>>
    decreases line.len(),
{
    let at = first_occurrence(line, separator);
    if separator.len() == 0 || at < 0 || at + separator.len() > line.len() {
        seq![line]
    } else {
        seq![line.take(at)] + split_at(line.skip(at + separator.len()), separator)
    }
}

/// The four fields of the line of `entry`, with the delimiter between them:
/// executable, name, labels, source file.
pub open spec fn encoded_fields(entry: EntryView) -> Seq<char> {
    shown_executable(entry) + delimiter() + entry.name + delimiter() + shown_labels(entry)
        + delimiter() + entry.config_file
}

/// The line of the entry `entry` at position `index` of the catalog.
pub open spec fn encoded_line(index: nat, entry: EntryView) -> Seq<char> {
    decimal(index) + index_mark() + encoded_fields(entry)
}

/// The lines of a catalog: one for each entry, in order.
pub open spec fn encoded_lines(catalog: Seq<EntryView>) -> Seq<Seq<char>> {
    Seq::new(catalog.len(), |i: int| encoded_line(i as nat, catalog[i]))
}

/// What stands for the index in a line of reply: what precedes the first
/// delimiter, of that what precedes the first colon, trimmed.
pub open spec fn index_text(line: Seq<char>) -> Seq<char> {
    trimmed(before_first(before_first(line, delimiter()), seq![':']))
}

/// What the selector's reply means.
#[derive(Debug, Clone, PartialEq, Eq)]
pub enum Reply {
    /// The selector ended without success: the user aborted the selection.
    Cancelled,
    /// The selector printed nothing but white space.
    Nothing,
    /// What stands for the index is no index; it is handed back.
    Unparsable(String),
    /// The index names no entry of a catalog of `len` entries.
    OutOfRange { index: usize, len: usize },
    /// The entry at this position was chosen.
    Chosen(usize),
}

/// What a [`Reply`] holds.
pub enum ReplyView {
    Cancelled,
    Nothing,
    Unparsable(Seq<char>),
    OutOfRange { index: nat, len: nat },
    Chosen(nat),
}

impl View for Reply {
    type V = ReplyView;

    open spec fn view(&self) -> ReplyView {
        match self {
            Reply::Cancelled => ReplyView::Cancelled,
            Reply::Nothing => ReplyView::Nothing,
            Reply::Unparsable(text) => ReplyView::Unparsable(text@),
            Reply::OutOfRange { index, len } => ReplyView::OutOfRange {
                index: *index as nat,
                len: *len as nat,
            },
            Reply::Chosen(index) => ReplyView::Chosen(*index as nat),
        }
    }
}

/// What a reply means against a catalog of `len` entries, where the
/// selector ended with or without `success` and printed `output`.
pub open spec fn decoded(success: bool, output: Seq<char>, len: nat) -> ReplyView {
    let line = trimmed(output);
    if !success {
        ReplyView::Cancelled
    } else if line.len() == 0 {
        ReplyView::Nothing
    } else {
        match parsed_index(index_text(line)) {
            None => ReplyView::Unparsable(index_text(line)),
            Some(index) => if index < len {
                ReplyView::Chosen(index)
            } else {
                ReplyView::OutOfRange { index, len }
            },
        }
    }
}

impl Reply {
    /// The chosen position, where an entry was chosen.
    pub fn chosen(&self) -> (index: Option<usize>)
        ensures
            index == match self@ {
                ReplyView::Chosen(i) => Some(i as usize),
                _ => None,
            },
    {
        match self {
            Reply::Chosen(index) => Some(*index),
            _ => None,
        }
    }
}

/// The delimiter between the fields of a line.
pub fn delimiter_text() -> (text: &'static str)
    ensures
        text@ == delimiter(),
{
    proof {
        reveal_strlit("\u{1F343}\u{2500}\u{2500}\u{2500}\u{2500}\u{1F343}");
    }
    let text = "\u{1F343}\u{2500}\u{2500}\u{2500}\u{2500}\u{1F343}";
    text
}

/// The field of the executable in the line of `entry`.
pub fn executable_field(entry: &FullCommandSnippet) -> (field: String)
    ensures
        field@ == shown_executable(entry@),
{
    match &entry.executable {
        Some(executable) => executable.clone(),
        None => owned("None"),
    }
}

/// The field of the labels in the line of `entry`.
pub fn labels_field(entry: &FullCommandSnippet) -> (field: String)
    ensures
        field@ == shown_labels(entry@),
{
    if entry.labels.len() == 0 {
        owned("No labels")
    } else {
        proof {
            reveal_strlit(" ");
            assert(" "@ =~= seq![' ']);
        }
        join(&entry.labels, " ")
    }
}

fn is_one_line(text: &Vec<char>) -> (yes: bool)
    ensures
        yes == one_line(text@),
{
    let mut i: usize = 0;
    while i < text.len()
        invariant
            i <= text.len(),
            forall|k: int| 0 <= k < i ==> #[trigger] text@[k] != '\n',
        decreases text.len() - i,
    {
        if text[i] == '\n' {
            return false;
        }
        i = i + 1;
    }
    true
}

/// Whether `field` is one line and can stand before a delimiter.
fn is_clean_field(field: &str) -> (yes: bool)
    ensures
        yes == (ends_cleanly(field@) && one_line(field@)),
{
    let chars = chars_of(field);
    let mark = chars_of(delimiter_text());
    let mut followed = owned(field);
    followed.append(delimiter_text());
    let all = chars_of(followed.as_str());
    first_index(&all, &mark) == chars.len() && is_one_line(&chars)
}

/// Whether the fields of the line of `entry` can be told apart.
pub fn is_separable(entry: &FullCommandSnippet) -> (yes: bool)
    ensures
        yes == separable(entry@),
{
    let file = chars_of(entry.config_file.as_str());
    let mark = chars_of(delimiter_text());
    is_clean_field(executable_field(entry).as_str()) && is_clean_field(entry.name.as_str())
        && is_clean_field(labels_field(entry).as_str()) && first_index(&file, &mark) == file.len()
        && is_one_line(&file)
}

/// The line of `entry`, the entry at position `index` of the catalog.
pub fn encode_entry(index: usize, entry: &FullCommandSnippet) -> (line: String)
    ensures
        line@ == encoded_line(index as nat, entry@),
{
    proof {
        reveal_strlit(": ");
        reveal_strlit(" ");
    }
    let mut line = decimal_text(index);
    line.append(": ");
    line.append(executable_field(entry).as_str());
    line.append(delimiter_text());
    line.append(entry.name.as_str());
    line.append(delimiter_text());
    line.append(labels_field(entry).as_str());
    line.append(delimiter_text());
    line.append(entry.config_file.as_str());
    line
}

/// The lines of the catalog, one for each entry, in order: what is written
/// to the selector.
pub fn encode_catalog(catalog: &AllCommandSnippets) -> (lines: Vec<String>)
    ensures
        texts(lines@) == encoded_lines(catalog@),
{
    let mut lines: Vec<String> = Vec::new();
    let mut i: usize = 0;
    while i < catalog.commands.len()
        invariant
            i <= catalog.commands.len(),
            texts(lines@) == encoded_lines(catalog@).take(i as int),
        decreases catalog.commands.len() - i,
    {
        let line = encode_entry(i, &catalog.commands[i]);
        proof {
            lemma_texts_push(lines@, line);
        }
        lines.push(line);
        i = i + 1;
    }
    lines
}

/// What the selector's reply means: whether it ended with `success`, and the
/// `output` it printed, against a catalog of `len` entries.
pub fn decode_selection(success: bool, output: &str, len: usize) -> (reply: Reply)
    ensures
        reply@ == decoded(success, output@, len as nat),
{
    if !success {
        return Reply::Cancelled;
    }
    let line = trim(output);
    if line.is_empty() {
        return Reply::Nothing;
    }
    proof {
        reveal_strlit(":");
        assert(":"@ =~= seq![':']);
    }
    let head = trim(before(before(line, delimiter_text()), ":"));
    match parse_index(head) {
        None => Reply::Unparsable(owned(head)),
        Some(index) => if index < len {
            Reply::Chosen(index)
        } else {
            Reply::OutOfRange { index, len }
        },
    }
}

/// The line of an entry begins with the digits of its index and a colon.
pub proof fn lemma_start_of_line(index: nat, entry: EntryView)
    ensures
        encoded_line(index, entry).len() > decimal(index).len(),
        encoded_line(index, entry).take(decimal(index).len() as int + 1) == decimal(index).push(
            ':',
        ),
{
    let digits = decimal(index);
    let line = encoded_line(index, entry);
    assert(line =~= digits + (index_mark() + encoded_fields(entry)));
    assert(index_mark()[0] == ':');
    assert(line.take(digits.len() as int + 1) =~= digits.push(':'));
}

/// The line of an entry is not blank, and what stands for the index in it
/// is the index in decimal, whatever the fields hold.
pub proof fn lemma_index_of_line(index: nat, entry: EntryView)
    ensures
        trimmed(encoded_line(index, entry)).len() > 0,
        index_text(trimmed(encoded_line(index, entry))) == decimal(index),
{
    let digits = decimal(index);
    let n = digits.len() as int;
    let line = encoded_line(index, entry);
    let start = digits.push(':');
    lemma_decimal_round_trip(index);
    lemma_start_of_line(index, entry);
    assert forall|j: int| 0 <= j <= n implies #[trigger] start[j] != delimiter()[0] && !is_space(
        start[j],
    ) by {
        if j < n {
            assert(is_digit(digits[j]));
        }
    }
    // Trimming keeps the digits and the colon.
    assert(line[0] == start[0] && line[n] == start[n]) by {
        assert(line.take(n + 1)[0] == line[0]);
        assert(line.take(n + 1)[n] == line[n]);
    }
    lemma_trimmed_keeps_start(line, n + 1);
    let bare = trimmed(line);
    assert(bare.take(n + 1) == start);
    // No delimiter begins among them.
    assert forall|j: int| 0 <= j < n + 1 implies #[trigger] bare[j] != delimiter()[0] by {
        assert(bare.take(n + 1)[j] == bare[j]);
    }
    lemma_not_found_in_start(bare, delimiter(), n + 1);
    let head = before_first(bare, delimiter());
    assert(head.take(n + 1) == start);
    // The first colon follows the digits.
    assert(head[n] == ':') by {
        assert(head.take(n + 1)[n] == head[n]);
    }
    assert forall|j: int| 0 <= j < n implies #[trigger] head[j] != ':' by {
        assert(head.take(n + 1)[j] == head[j]);
        assert(is_digit(digits[j]));
    }
    lemma_before_first_char(head, ':', n);
    assert(head.take(n) =~= digits) by {
        assert(head.take(n + 1).take(n) =~= head.take(n));
    }
    // Digits are no white space: trimming leaves them as they are.
    assert(is_digit(digits[0]) && is_digit(digits[n - 1]));
    lemma_trimmed_of_bare(digits);
}

/// Round trip: where the reply is the line of the entry at position `index`
/// of a catalog, it is decoded to that position, whatever the fields of the
/// entries hold.
pub proof fn lemma_round_trip(catalog: Seq<EntryView>, index: int)
    requires
        0 <= index < catalog.len(),
        catalog.len() <= usize::MAX,
    ensures
        decoded(true, encoded_lines(catalog)[index], catalog.len()) == ReplyView::Chosen(
            index as nat,
        ),
{
    lemma_index_of_line(index as nat, catalog[index]);
    lemma_decimal_round_trip(index as nat);
}

/// Out of range: a reply that begins as the line of position `index` does,
/// with `index` not below the catalog's length, is reported and chooses
/// nothing: as out of range where `index` fits in `usize`, as no index
/// where it does not.
pub proof fn lemma_out_of_range(index: nat, entry: EntryView, len: nat)
    requires
        index >= len,
    ensures
        decoded(true, encoded_line(index, entry), len) == if index <= usize::MAX {
            ReplyView::OutOfRange { index, len }
        } else {
            ReplyView::Unparsable(decimal(index))
        },
{
    lemma_index_of_line(index, entry);
    lemma_decimal_round_trip(index);
}

/// A reply never chooses a position outside the catalog: what is chosen
/// lies below the catalog's length, and what is reported as out of range
/// does not.
pub proof fn lemma_choice_in_range(success: bool, output: Seq<char>, len: nat)
    ensures
        match decoded(success, output, len) {
            ReplyView::Chosen(index) => index < len,
            ReplyView::OutOfRange { index, len: of } => index >= len && of == len,
            _ => true,
        },
{
}

/// A reply whose index is `index`, not below the catalog's length, is
/// reported as out of range, with the index and the length.
pub proof fn lemma_index_not_below_length(output: Seq<char>, index: nat, len: nat)
    requires
        trimmed(output).len() > 0,
        parsed_index(index_text(trimmed(output))) == Some(index),
        index >= len,
    ensures
        decoded(true, output, len) == (ReplyView::OutOfRange { index, len }),
{
}

/// Abort: a selector that ended without success, or printed nothing but
/// white space, chose nothing.
pub proof fn lemma_abort_chooses_nothing(success: bool, output: Seq<char>, len: nat)
    requires
        !success || trimmed(output).len() == 0,
    ensures
        decoded(success, output, len) == ReplyView::Cancelled || decoded(success, output, len)
            == ReplyView::Nothing,
        !(decoded(success, output, len) is Chosen),
{
}

/// A line always has a first part, which is what precedes its first
/// delimiter: no reply is without the text that stands for its index.
pub proof fn lemma_first_part(line: Seq<char>)
    ensures
        split_at(line, delimiter()).len() > 0,
        split_at(line, delimiter())[0] == before_first(line, delimiter()),
{
    lemma_first_occurrence_is_first(line, delimiter());
    if first_occurrence(line, delimiter()) + delimiter().len() > line.len() {
        assert(line.take(line.len() as int) == line);
    }
}

/// A field that ends cleanly is the first part of any line that begins
/// with it and a delimiter, and the parts of what follows are the others.
pub proof fn lemma_split_first(field: Seq<char>, rest: Seq<char>)
    requires
        ends_cleanly(field),
    ensures
        split_at(field + delimiter() + rest, delimiter()) == seq![field] + split_at(
            rest,
            delimiter(),
        ),
{
    let mark = delimiter();
    let line = field + mark + rest;
    let n = field.len() as int;
    lemma_first_occurrence_is_first(field + mark, mark);
    assert forall|k: int| 0 <= k < n implies !occurs_at(line, mark, k) by {
        lemma_occurrence_is_local(field + mark, rest, mark, k);
    }
    assert(line.subrange(n, n + mark.len()) =~= mark);
    lemma_first_occurrence(line, mark, n);
    assert(line.take(n) =~= field);
    assert(line.skip(n + mark.len()) =~= rest);
}

/// A text without a delimiter is one part.
pub proof fn lemma_split_last(text: Seq<char>)
    requires
        holds_no_delimiter(text),
    ensures
        split_at(text, delimiter()) == seq![text],
{
}

/// A text that ends cleanly still does after a text without a leaf, the
/// character that the delimiter begins with.
pub proof fn lemma_clean_after_prefix(prefix: Seq<char>, field: Seq<char>)
    requires
        forall|i: int| 0 <= i < prefix.len() ==> #[trigger] prefix[i] != delimiter()[0],
        ends_cleanly(field),
    ensures
        ends_cleanly(prefix + field),
{
    let mark = delimiter();
    let tail = field + mark;
    let whole = prefix + field + mark;
    let p = prefix.len() as int;
    let n = p + field.len();
    assert(whole =~= prefix + tail);
    lemma_first_occurrence_is_first(tail, mark);
    assert forall|k: int| 0 <= k < n implies !occurs_at(whole, mark, k) by {
        if k < p {
            if occurs_at(whole, mark, k) {
                assert(whole.subrange(k, k + mark.len())[0] == mark[0]);
                assert(whole.subrange(k, k + mark.len())[0] == prefix[k]);
            }
        } else {
            lemma_occurrence_shifts(prefix, tail, mark, k - p);
            assert(!occurs_at(tail, mark, k - p));
        }
    }
    lemma_occurrence_shifts(prefix, tail, mark, field.len() as int);
    assert(tail.subrange(field.len() as int, field.len() as int + mark.len()) =~= mark);
    lemma_first_occurrence(whole, mark, n);
}

/// Two texts of one line each make one line.
pub proof fn lemma_one_line_join(a: Seq<char>, b: Seq<char>)
    requires
        one_line(a),
        one_line(b),
    ensures
        one_line(a + b),
{
    assert forall|i: int| 0 <= i < (a + b).len() implies #[trigger] (a + b)[i] != '\n' by {
        if i < a.len() {
            assert((a + b)[i] == a[i]);
        } else {
            assert((a + b)[i] == b[i - a.len()]);
        }
    }
}

/// The line of an entry whose fields can be told apart is one line.
pub proof fn lemma_line_is_one_line(index: nat, entry: EntryView)
    requires
        separable(entry),
    ensures
        one_line(encoded_line(index, entry)),
{
    let mark = delimiter();
    lemma_decimal_round_trip(index);
    assert(one_line(decimal(index))) by {
        assert forall|i: int| 0 <= i < decimal(index).len() implies #[trigger] decimal(index)[i]
            != '\n' by {
            assert(is_digit(decimal(index)[i]));
        }
    }
    assert(one_line(index_mark()));
    assert(one_line(mark));
    let one = shown_executable(entry) + mark;
    let two = one + entry.name;
    let three = two + mark;
    let four = three + shown_labels(entry);
    let five = four + mark;
    lemma_one_line_join(shown_executable(entry), mark);
    lemma_one_line_join(one, entry.name);
    lemma_one_line_join(two, mark);
    lemma_one_line_join(three, shown_labels(entry));
    lemma_one_line_join(four, mark);
    lemma_one_line_join(five, entry.config_file);
    assert(encoded_fields(entry) == five + entry.config_file);
    lemma_one_line_join(decimal(index), index_mark());
    lemma_one_line_join(decimal(index) + index_mark(), encoded_fields(entry));
}

/// The delimiter splits the line of an entry whose fields can be told
/// apart into exactly four parts: the index with the executable, the name,
/// the labels and the source file.
pub proof fn lemma_line_splits_in_four(index: nat, entry: EntryView)
    requires
        separable(entry),
    ensures
        split_at(encoded_line(index, entry), delimiter()) == seq![
            decimal(index) + index_mark() + shown_executable(entry),
            entry.name,
            shown_labels(entry),
            entry.config_file,
        ],
{
    let mark = delimiter();
    let front = decimal(index) + index_mark();
    let head = front + shown_executable(entry);
    let line = encoded_line(index, entry);
    lemma_decimal_round_trip(index);
    assert forall|i: int| 0 <= i < front.len() implies #[trigger] front[i] != mark[0] by {
        if i < decimal(index).len() {
            assert(is_digit(decimal(index)[i]));
            assert(front[i] == decimal(index)[i]);
        } else {
            assert(front[i] == index_mark()[i - decimal(index).len()]);
        }
    }
    lemma_clean_after_prefix(front, shown_executable(entry));
    let after_labels = entry.config_file;
    let after_name = shown_labels(entry) + mark + after_labels;
    let after_head = entry.name + mark + after_name;
    assert(line =~= head + mark + after_head);
    lemma_split_first(head, after_head);
    lemma_split_first(entry.name, after_name);
    lemma_split_first(shown_labels(entry), after_labels);
    lemma_split_last(after_labels);
    assert(split_at(after_name, mark) =~= seq![shown_labels(entry), entry.config_file]);
    assert(split_at(after_head, mark) =~= seq![
        entry.name,
        shown_labels(entry),
        entry.config_file,
    ]);
}

/// Fields: the line of an entry whose fields can be told apart is one
/// line, and the delimiter splits it into exactly four parts: the index
/// with the executable, the name, the labels and the source file.
pub proof fn lemma_fields_are_recovered(index: nat, entry: EntryView)
    requires
        separable(entry),
    ensures
        split_at(encoded_line(index, entry), delimiter()) == seq![
            decimal(index) + index_mark() + shown_executable(entry),
            entry.name,
            shown_labels(entry),
            entry.config_file,
        ],
        one_line(encoded_line(index, entry)),
{
    lemma_line_splits_in_four(index, entry);
    lemma_line_is_one_line(index, entry);
}

} // verus!

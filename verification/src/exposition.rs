//! The text exposition format, as a specification.
//!
//! A series is one gauge of a metric family: the family's name and help
//! text, and the label pairs that tell this gauge from its siblings. Its
//! exposition is a two-line header followed by one sample line.

use crate::text::decimal;
use vstd::prelude::*;
use vstd::string::*;

verus! {

/// What identifies one gauge in the exposition.
pub ghost struct Series {
    /// Name of the metric family.
    pub family: Seq<char>,
    /// Help text of the metric family.
    pub help: Seq<char>,
    /// Label names with their values, in the order they are written.
    pub labels: Seq<(Seq<char>, Seq<char>)>,
}

/// How one character is written inside help text (`quotes` false) or
/// inside a quoted label value (`quotes` true).
pub open spec fn escaped_char(c: char, quotes: bool) -> Seq<char> {
    if c == '\\' {
        seq!['\\', '\\']
    } else if c == '\n' {
        seq!['\\', 'n']
    } else if c == '"' && quotes {
        seq!['\\', '"']
    } else {
        seq![c]
    }
}

/// `s` with backslash and line feed escaped, and the double quote too when
/// `quotes` is set.
pub open spec fn escaped(s: Seq<char>, quotes: bool) -> Seq<char>
    decreases s.len(),
{
    if s.len() == 0 {
        Seq::empty()
    } else {
        escaped(s.drop_last(), quotes) + escaped_char(s.last(), quotes)
    }
}

/// The `# HELP` and `# TYPE` lines of a gauge family. A family without
/// help text has no `# HELP` line.
pub open spec fn header_text(family: Seq<char>, help: Seq<char>) -> Seq<char> {
    let help_line = if help.len() == 0 {
        Seq::empty()
    } else {
        "# HELP "@ + family + " "@ + escaped(help, false) + "\n"@
    };
    help_line + "# TYPE "@ + family + " gauge\n"@
}

/// One label: `name="value"`.
pub open spec fn label_text(label: (Seq<char>, Seq<char>)) -> Seq<char> {
    label.0 + "=\""@ + escaped(label.1, true) + "\""@
}

/// The labels, separated by commas.
pub open spec fn label_list(labels: Seq<(Seq<char>, Seq<char>)>) -> Seq<char>
    decreases labels.len(),
{
    if labels.len() == 0 {
        Seq::empty()
    } else if labels.len() == 1 {
        label_text(labels[0])
    } else {
        label_list(labels.drop_last()) + ","@ + label_text(labels.last())
    }
}

/// The label block of a sample line: braces around the label list, or
/// nothing at all when there is no label.
pub open spec fn labels_text(labels: Seq<(Seq<char>, Seq<char>)>) -> Seq<char> {
    if labels.len() == 0 {
        Seq::empty()
    } else {
        "{"@ + label_list(labels) + "}"@
    }
}

/// The sample line of one gauge, line feed included.
pub open spec fn sample_text(series: Series, reading: nat) -> Seq<char> {
    series.family + labels_text(series.labels) + " "@ + decimal(reading) + "\n"@
}

/// The exposition of one gauge on its own: header, then sample line.
pub open spec fn series_text(series: Series, reading: nat) -> Seq<char> {
    header_text(series.family, series.help) + sample_text(series, reading)
}

/// Number of line feeds in `s`, that is, of lines that end in `s`.
pub open spec fn line_feeds(s: Seq<char>) -> nat
    decreases s.len(),
{
    if s.len() == 0 {
        0
    } else {
        line_feeds(s.drop_last()) + if s.last() == '\n' {
            1nat
        } else {
            0nat
        }
    }
}

/// Line feeds add up over concatenation.
pub proof fn lemma_line_feeds_concat(a: Seq<char>, b: Seq<char>)
    ensures
        line_feeds(a + b) == line_feeds(a) + line_feeds(b),
    decreases b.len(),
{
    if b.len() == 0 {
        assert(a + b =~= a);
    } else {
        assert((a + b).drop_last() =~= a + b.drop_last());
        assert((a + b).last() == b.last());
        lemma_line_feeds_concat(a, b.drop_last());
    }
}

/// A text without the line feed character has no line feed.
pub proof fn lemma_line_feeds_none(s: Seq<char>)
    requires
        forall|i: int| 0 <= i < s.len() ==> s[i] != '\n',
    ensures
        line_feeds(s) == 0,
    decreases s.len(),
{
    if s.len() > 0 {
        lemma_line_feeds_none(s.drop_last());
    }
}

/// Escaping leaves no line feed behind: an escaped text stays on its line.
pub proof fn lemma_escaped_stays_on_line(s: Seq<char>, quotes: bool)
    ensures
        line_feeds(escaped(s, quotes)) == 0,
    decreases s.len(),
{
    if s.len() > 0 {
        lemma_escaped_stays_on_line(s.drop_last(), quotes);
        lemma_line_feeds_concat(escaped(s.drop_last(), quotes), escaped_char(s.last(), quotes));
        lemma_line_feeds_none(escaped_char(s.last(), quotes));
    }
}

/// A label whose name has no line feed is written without a line feed.
pub proof fn lemma_label_stays_on_line(label: (Seq<char>, Seq<char>))
    requires
        line_feeds(label.0) == 0,
    ensures
        line_feeds(label_text(label)) == 0,
{
    reveal_strlit("=\"");
    reveal_strlit("\"");
    let value = escaped(label.1, true);
    lemma_escaped_stays_on_line(label.1, true);
    lemma_line_feeds_none("=\""@);
    lemma_line_feeds_none("\""@);
    lemma_line_feeds_concat(label.0, "=\""@);
    lemma_line_feeds_concat(label.0 + "=\""@, value);
    lemma_line_feeds_concat(label.0 + "=\""@ + value, "\""@);
}

/// Labels whose names have no line feed are listed without a line feed.
pub proof fn lemma_labels_stay_on_line(labels: Seq<(Seq<char>, Seq<char>)>)
    requires
        forall|i: int| 0 <= i < labels.len() ==> line_feeds((#[trigger] labels[i]).0) == 0,
    ensures
        line_feeds(label_list(labels)) == 0,
        line_feeds(labels_text(labels)) == 0,
    decreases labels.len(),
{
    reveal_strlit(",");
    reveal_strlit("{");
    reveal_strlit("}");
    lemma_line_feeds_none(","@);
    lemma_line_feeds_none("{"@);
    lemma_line_feeds_none("}"@);
    if labels.len() == 1 {
        lemma_label_stays_on_line(labels[0]);
    } else if labels.len() > 1 {
        let front = label_list(labels.drop_last());
        lemma_labels_stay_on_line(labels.drop_last());
        lemma_label_stays_on_line(labels.last());
        lemma_line_feeds_concat(front, ","@);
        lemma_line_feeds_concat(front + ","@, label_text(labels.last()));
    }
    if labels.len() > 0 {
        lemma_line_feeds_concat("{"@, label_list(labels));
        lemma_line_feeds_concat("{"@ + label_list(labels), "}"@);
    }
}

/// A sample is one line: where neither the family name nor a label name
/// holds a line feed, the only line feed of the sample line is its last
/// character.
pub proof fn lemma_sample_is_one_line(series: Series, reading: nat)
    requires
        line_feeds(series.family) == 0,
        forall|i: int|
            0 <= i < series.labels.len() ==> line_feeds((#[trigger] series.labels[i]).0) == 0,
    ensures
        line_feeds(sample_text(series, reading)) == 1,
        sample_text(series, reading).last() == '\n',
{
    reveal_strlit(" ");
    reveal_strlit("\n");
    let labels = labels_text(series.labels);
    let value = decimal(reading);
    lemma_labels_stay_on_line(series.labels);
    crate::text::lemma_decimal_shape(reading);
    lemma_line_feeds_none(value);
    lemma_line_feeds_none(" "@);
    assert(line_feeds("\n"@) == 1) by {
        reveal_with_fuel(line_feeds, 2);
    }
    lemma_line_feeds_concat(series.family, labels);
    lemma_line_feeds_concat(series.family + labels, " "@);
    lemma_line_feeds_concat(series.family + labels + " "@, value);
    lemma_line_feeds_concat(series.family + labels + " "@ + value, "\n"@);
}

/// The header is two lines: where the family name holds no line feed and
/// there is help text, the header holds exactly the line feeds that end
/// the `# HELP` line and the `# TYPE` line.
pub proof fn lemma_header_is_two_lines(family: Seq<char>, help: Seq<char>)
    requires
        line_feeds(family) == 0,
        help.len() > 0,
    ensures
        line_feeds(header_text(family, help)) == 2,
{
    reveal_strlit("# HELP ");
    reveal_strlit(" ");
    reveal_strlit("\n");
    reveal_strlit("# TYPE ");
    reveal_strlit(" gauge\n");
    let text = escaped(help, false);
    lemma_escaped_stays_on_line(help, false);
    lemma_line_feeds_none("# HELP "@);
    lemma_line_feeds_none(" "@);
    lemma_line_feeds_none("# TYPE "@);
    assert(line_feeds("\n"@) == 1 && line_feeds(" gauge\n"@) == 1) by {
        reveal_with_fuel(line_feeds, 8);
    }
    let help_line = "# HELP "@ + family + " "@ + text + "\n"@;
    lemma_line_feeds_concat("# HELP "@, family);
    lemma_line_feeds_concat("# HELP "@ + family, " "@);
    lemma_line_feeds_concat("# HELP "@ + family + " "@, text);
    lemma_line_feeds_concat("# HELP "@ + family + " "@ + text, "\n"@);
    lemma_line_feeds_concat(help_line, "# TYPE "@);
    lemma_line_feeds_concat(help_line + "# TYPE "@, family);
    lemma_line_feeds_concat(help_line + "# TYPE "@ + family, " gauge\n"@);
}

/// A text that needs no escaping is escaped to itself.
pub proof fn lemma_escaped_plain(s: Seq<char>, quotes: bool)
    requires
        forall|i: int| 0 <= i < s.len() ==> escaped_char(#[trigger] s[i], quotes) == seq![s[i]],
    ensures
        escaped(s, quotes) == s,
    decreases s.len(),
{
    if s.len() > 0 {
        lemma_escaped_plain(s.drop_last(), quotes);
        assert(escaped(s, quotes) =~= s);
    }
}

/// Counts the characters of `escaped(s, quotes)` without building it.
pub fn escaped_length(s: &str, quotes: bool) -> (n: u128)
    ensures
        n == escaped(s@, quotes).len(),
        n <= 2 * s@.len(),
{
    let len = s.unicode_len();
    let mut n: u128 = 0;
    let mut i: usize = 0;
    while i < len
        invariant
            i <= len,
            len == s@.len(),
            n == escaped(s@.take(i as int), quotes).len(),
            n <= 2 * i,
        decreases len - i,
    {
        let c = s.get_char(i);
        proof {
            let next = s@.take(i + 1);
            assert(next.drop_last() =~= s@.take(i as int));
            assert(next.last() == c);
        }
        if c == '\\' || c == '\n' || (quotes && c == '"') {
            n += 2;
        } else {
            n += 1;
        }
        i += 1;
    }
    assert(s@.take(len as int) =~= s@);
    n
}

/// Counts the characters of the header of a gauge family.
pub fn header_length(family: &str, help: &str) -> (n: u128)
    ensures
        n == header_text(family@, help@).len(),
{
    proof {
        reveal_strlit("# HELP ");
        reveal_strlit(" ");
        reveal_strlit("\n");
        reveal_strlit("# TYPE ");
        reveal_strlit(" gauge\n");
    }
    let name: u128 = family.unicode_len() as u128;
    let type_line: u128 = 7 + name + 7;
    let help_chars: usize = help.unicode_len();
    if help_chars == 0 {
        type_line
    } else {
        let help_line: u128 = 7 + name + 1 + escaped_length(help, false) + 1;
        help_line + type_line
    }
}

} // verus!

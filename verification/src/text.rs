//! Text as the orchestrator sees it: records, lines, and the bytes that
//! workers write.

use vstd::prelude::*;
use vstd::utf8::{decode_utf8, valid_utf8};

verus! {

/// Position of the first line feed in `text`, or `text.len()` if it holds none.
pub open spec fn first_newline(text: Seq<char>) -> int
    decreases text.len(),
{
    if text.len() == 0 || text[0] == '\n' {
        0
    } else {
        1 + first_newline(text.drop_first())
    }
}

/// `line` without one trailing carriage return, if it ends in one.
pub open spec fn strip_cr(line: Seq<char>) -> Seq<char> {
    if line.len() > 0 && line.last() == '\r' {
        line.drop_last()
    } else {
        line
    }
}

/// The lines of `text`. A line ends at a line feed, which may be preceded by
/// one carriage return; neither belongs to the line. What follows the last
/// line feed is a line of its own unless it is empty, and it keeps a trailing
/// carriage return.
pub open spec fn lines_of(text: Seq<char>) -> Seq<Seq<char>>
    decreases text.len(),
{
    let end = first_newline(text);
    if text.len() == 0 {
        Seq::empty()
    } else if 0 <= end < text.len() {
        seq![strip_cr(text.take(end))] + lines_of(text.skip(end + 1))
    } else {
        seq![text]
    }
}

/// A record as it is written to a worker: followed by one line feed.
pub open spec fn framed(record: Seq<char>) -> Seq<char> {
    record.push('\n')
}

/// Whether `record` can stand on a line of its own: it holds no line feed and
/// does not end in a carriage return.
pub open spec fn plain(record: Seq<char>) -> bool {
    &&& forall|i: int| 0 <= i < record.len() ==> record[i] != '\n'
    &&& record.len() > 0 ==> record.last() != '\r'
}

/// Whether `text` is empty or ends in a line feed.
pub open spec fn terminated(text: Seq<char>) -> bool {
    text.len() == 0 || text.last() == '\n'
}

/// Whether every element of `outputs` is valid UTF-8.
pub open spec fn all_text(outputs: Seq<Seq<u8>>) -> bool {
    forall|i: int| 0 <= i < outputs.len() ==> valid_utf8(#[trigger] outputs[i])
}

/// The decoded outputs, joined from the last one to the first.
pub open spec fn joined(outputs: Seq<Seq<u8>>) -> Seq<char>
    decreases outputs.len(),
{
    if outputs.len() == 0 {
        Seq::empty()
    } else {
        decode_utf8(outputs.last()) + joined(outputs.drop_last())
    }
}

/// Splits `text` into lines with `str::lines` of the standard library,
/// copying each line into a `String` of its own.
///
/// Trusted: the lines are those that `lines_of` describes, following the
/// documentation of `str::lines`.
#[verifier::external_body]
fn split_lines(text: &str) -> (r: Vec<String>)
    ensures
        r.deep_view() == lines_of(text@),
{
    text.lines().map(String::from).collect()
}

/// Decodes `bytes` with `String::from_utf8` of the standard library.
///
/// Trusted: the result is `Some` exactly when the bytes are valid UTF-8, and
/// then holds the characters that they encode.
#[verifier::external_body]
pub(crate) fn decode(bytes: Vec<u8>) -> (r: Option<String>)
    ensures
        r is Some <==> valid_utf8(bytes@),
        r matches Some(text) ==> text@ == decode_utf8(bytes@),
{
    String::from_utf8(bytes).ok()
}

/// The lines of `text`, each in a `String` of its own.
pub fn lines(text: &str) -> (r: Vec<String>)
    ensures
        r.deep_view() == lines_of(text@),
{
    split_lines(text)
}

/// Appends the line terminator to `record`.
pub fn frame(record: &str) -> (r: String)
    ensures
        r@ == framed(record@),
{
    proof {
        reveal_strlit("\n");
    }
    let r = String::from_str(record).concat("\n");
    assert(r@ =~= framed(record@));
    r
}

/// The first line feed is where `first_newline` says, and nowhere before.
proof fn lemma_first_newline(text: Seq<char>)
    ensures
        0 <= first_newline(text) <= text.len(),
        first_newline(text) < text.len() ==> text[first_newline(text)] == '\n',
        forall|i: int| 0 <= i < first_newline(text) ==> text[i] != '\n',
    decreases text.len(),
{
    if text.len() != 0 && text[0] != '\n' {
        let rest = text.drop_first();
        lemma_first_newline(rest);
        assert forall|i: int| 0 <= i < first_newline(text) implies text[i] != '\n' by {
            if i > 0 {
                assert(text[i] == rest[i - 1]);
            }
        }
    }
}

/// The first line feed of two texts put together is that of the first, or
/// else that of the second.
proof fn lemma_first_newline_concat(head: Seq<char>, tail: Seq<char>)
    ensures
        first_newline(head + tail) == if first_newline(head) < head.len() {
            first_newline(head)
        } else {
            head.len() + first_newline(tail)
        },
    decreases head.len(),
{
    lemma_first_newline(head);
    if head.len() == 0 {
        assert(head + tail =~= tail);
    } else if head[0] != '\n' {
        lemma_first_newline_concat(head.drop_first(), tail);
        assert((head + tail).drop_first() =~= head.drop_first() + tail);
    }
}

/// A record appended to a text with its line terminator is one more line at
/// the end, provided that the text is empty or ends in a line feed and that
/// the record can stand on a line of its own.
pub proof fn lemma_lines_of_appended_record(text: Seq<char>, record: Seq<char>)
    requires
        terminated(text),
        plain(record),
    ensures
        lines_of(text + framed(record)) == lines_of(text).push(record),
        terminated(text + framed(record)),
    decreases text.len(),
{
    let whole = text + framed(record);
    let line = framed(record);
    lemma_first_newline(text);
    lemma_first_newline_concat(text, line);
    if text.len() == 0 {
        assert(whole =~= line);
        lemma_first_newline(record);
        lemma_first_newline_concat(record, seq!['\n']);
        assert(record + seq!['\n'] =~= line);
        assert(line.take(record.len() as int) =~= record);
        assert(line.skip(record.len() as int + 1) =~= Seq::<char>::empty());
        assert(lines_of(Seq::<char>::empty()) =~= Seq::<Seq<char>>::empty());
        assert(lines_of(line) =~= seq![record]);
        assert(lines_of(text).push(record) =~= seq![record]);
    } else {
        let end = first_newline(text);
        assert(end < text.len()) by {
            if end == text.len() {
                assert(text[text.len() - 1] != '\n');
            }
        }
        let rest = text.skip(end + 1);
        assert(terminated(rest)) by {
            if rest.len() > 0 {
                assert(rest.last() == text.last());
            }
        }
        lemma_lines_of_appended_record(rest, record);
        assert(whole.take(end) =~= text.take(end));
        assert(whole.skip(end + 1) =~= rest + line);
        assert(lines_of(whole) =~= lines_of(text).push(record));
    }
}

} // verus!

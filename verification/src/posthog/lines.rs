//! The queue file's bytes as lines of text.

use crate::text;

use vstd::prelude::*;
use vstd::utf8::*;

verus! {

/// The byte that ends a line.
pub const LINE_FEED: u8 = 10;

/// The byte that may stand before it.
pub const CARRIAGE_RETURN: u8 = 13;

/// Where the first line of `bytes` ends: at its first line feed, or at the end
/// of the bytes if there is none.
pub open spec fn line_end(bytes: Seq<u8>) -> nat
    decreases bytes.len(),
{
    if bytes.len() == 0 || bytes.first() == LINE_FEED {
        0
    } else {
        1 + line_end(bytes.drop_first())
    }
}

/// A line that a line feed ended, less the carriage return before it.
pub open spec fn without_return(line: Seq<u8>) -> Seq<u8> {
    if line.len() > 0 && line.last() == CARRIAGE_RETURN {
        line.drop_last()
    } else {
        line
    }
}

/// The lines of `bytes`, less what ends each. The last need not be ended.
pub open spec fn byte_lines(bytes: Seq<u8>) -> Seq<Seq<u8>>
    decreases bytes.len(),
{
    let end = line_end(bytes) as int;
    if bytes.len() == 0 {
        Seq::empty()
    } else if end >= bytes.len() {
        seq![bytes]
    } else {
        seq![without_return(bytes.take(end))] + byte_lines(bytes.skip(end + 1))
    }
}

/// The lines that are text, in their order.
pub open spec fn text_lines(lines: Seq<Seq<u8>>) -> Seq<Seq<char>>
    decreases lines.len(),
{
    if lines.len() == 0 {
        Seq::empty()
    } else if valid_utf8(lines.last()) {
        text_lines(lines.drop_last()).push(decode_utf8(lines.last()))
    } else {
        text_lines(lines.drop_last())
    }
}

/// The lines of text that `bytes` holds. A line that is not UTF-8 is passed
/// over, and does not hide the lines behind it.
pub open spec fn lines_of(bytes: Seq<u8>) -> Seq<Seq<char>> {
    text_lines(byte_lines(bytes))
}

/// The text of each string.
pub open spec fn texts(strings: Seq<String>) -> Seq<Seq<char>> {
    strings.map_values(|s: String| s@)
}

proof fn lemma_line_end(bytes: Seq<u8>, end: int)
    requires
        0 <= end <= bytes.len(),
        forall|i: int| 0 <= i < end ==> bytes[i] != LINE_FEED,
        end < bytes.len() ==> bytes[end] == LINE_FEED,
    ensures
        line_end(bytes) == end,
    decreases end,
{
    if end > 0 {
        lemma_line_end(bytes.drop_first(), end - 1);
    }
}

/// Reads every line of `contents`, keeping the ones that are text.
pub fn readable_lines(contents: &[u8]) -> (lines: Vec<String>)
    ensures
        texts(lines@) == lines_of(contents@),
        lines@.len() == lines_of(contents@).len(),
        forall|i: int|
            0 <= i < lines@.len() ==> (#[trigger] lines@[i])@ == lines_of(contents@)[i],
{
    let mut lines: Vec<String> = Vec::new();
    let ghost mut done: Seq<Seq<u8>> = Seq::empty();
    let mut start: usize = 0;
    assert(contents@.skip(0) =~= contents@);
    assert(done + byte_lines(contents@) =~= byte_lines(contents@));
    while start < contents.len()
        invariant
            start <= contents.len(),
            byte_lines(contents@) == done + byte_lines(contents@.skip(start as int)),
            texts(lines@) == text_lines(done),
        decreases contents.len() - start,
    {
        let mut line: Vec<u8> = Vec::new();
        let mut end: usize = start;
        while end < contents.len() && contents[end] != LINE_FEED
            invariant
                start <= end <= contents.len(),
                line@ == contents@.subrange(start as int, end as int),
                forall|i: int| start <= i < end ==> contents@[i] != LINE_FEED,
            decreases contents.len() - end,
        {
            line.push(contents[end]);
            end += 1;
            assert(line@ =~= contents@.subrange(start as int, end as int));
        }
        let ghost rest = contents@.skip(start as int);
        let ghost len = end - start;
        proof {
            lemma_line_end(rest, len);
            assert(line@ =~= rest.take(len));
            assert(rest.take(rest.len() as int) =~= rest);
        }
        if end < contents.len() {
            if line.len() > 0 && line[line.len() - 1] == CARRIAGE_RETURN {
                line.pop();
            }
            start = end + 1;
            assert(contents@.skip(start as int) =~= rest.skip(len + 1));
        } else {
            start = end;
            assert(contents@.skip(start as int) =~= Seq::<u8>::empty());
        }
        proof {
            assert(byte_lines(rest) =~= seq![line@] + byte_lines(contents@.skip(start as int)));
            assert(done.push(line@).drop_last() =~= done);
            assert(done + byte_lines(rest) =~= done.push(line@) + byte_lines(contents@.skip(start as int)));
            done = done.push(line@);
        }
        let ghost before = texts(lines@);
        match text::from_utf8(line) {
            Some(text) => {
                lines.push(text);
                assert(texts(lines@) =~= before.push(text@));
            },
            None => {},
        }
    }
    assert(contents@.skip(start as int) =~= Seq::<u8>::empty());
    assert(done + byte_lines(Seq::empty()) =~= done);
    lines
}

/// Text that stays one line: it holds no line feed, and does not end in a
/// carriage return that the line feed behind it would take along.
pub open spec fn is_line(text: Seq<char>) -> bool {
    &&& forall|i: int| 0 <= i < text.len() ==> text[i] != '\n'
    &&& text.len() > 0 ==> text.last() != '\r'
}

/// `text` as a line of the file.
pub open spec fn ended(text: Seq<char>) -> Seq<char> {
    text.push('\n')
}

/// Lines of text one after the other.
pub open spec fn joined(lines: Seq<Seq<char>>) -> Seq<char>
    decreases lines.len(),
{
    if lines.len() == 0 {
        Seq::empty()
    } else {
        ended(lines.first()) + joined(lines.drop_first())
    }
}

/// Bytes at whose end a line may start: none, or bytes that a line feed ends.
pub open spec fn is_at_line_start(bytes: Seq<u8>) -> bool {
    bytes.len() == 0 || bytes.last() == LINE_FEED
}

/// A character past ASCII is encoded in bytes past ASCII; one in ASCII in the
/// byte of the same number.
proof fn lemma_encode_scalar(c: char)
    ensures
        c as u32 == c as int,
        encode_scalar(c as u32).len() > 0,
        (c as u32) < 0x80 ==> encode_scalar(c as u32).len() == 1 && encode_scalar(c as u32)[0]
            == c as u32,
        (c as u32) >= 0x80 ==> forall|i: int|
            0 <= i < encode_scalar(c as u32).len() ==> #[trigger] encode_scalar(c as u32)[i] >= 0x80,
{
    char_is_scalar(c);
    let v = c as u32;
    assert(v < 0x80 ==> (v & 0x7F) as u8 as u32 == v) by (bit_vector);
    assert(0xC0 | ((v >> 6) & 0x1F) as u8 >= 0x80) by (bit_vector);
    assert(0xE0 | ((v >> 12) & 0x0F) as u8 >= 0x80) by (bit_vector);
    assert(0xF0 | ((v >> 18) & 0x7) as u8 >= 0x80) by (bit_vector);
    assert(0x80 | (v & 0x3F) as u8 >= 0x80) by (bit_vector);
    assert(0x80 | ((v >> 6) & 0x3F) as u8 >= 0x80) by (bit_vector);
    assert(0x80 | ((v >> 12) & 0x3F) as u8 >= 0x80) by (bit_vector);
}

pub(crate) proof fn lemma_encode_concat(a: Seq<char>, b: Seq<char>)
    ensures
        encode_utf8(a + b) == encode_utf8(a) + encode_utf8(b),
    decreases a.len(),
{
    if a.len() == 0 {
        assert(a + b =~= b);
        assert(encode_utf8(a) + encode_utf8(b) =~= encode_utf8(b));
    } else {
        lemma_encode_concat(a.drop_first(), b);
        assert((a + b).drop_first() =~= a.drop_first() + b);
        assert(encode_utf8(a + b) =~= encode_utf8(a) + encode_utf8(b));
    }
}

/// The bytes of a line of text are a line of bytes.
proof fn lemma_line_bytes(text: Seq<char>)
    requires
        is_line(text),
    ensures
        forall|i: int|
            0 <= i < encode_utf8(text).len() ==> #[trigger] encode_utf8(text)[i] != LINE_FEED,
        without_return(encode_utf8(text)) == encode_utf8(text),
    decreases text.len(),
{
    if text.len() > 0 {
        let rest = text.drop_first();
        lemma_encode_scalar(text[0]);
        assert(is_line(rest)) by {
            if rest.len() > 0 {
                assert(rest.last() == text.last());
            }
        }
        lemma_line_bytes(rest);
        let head = encode_scalar(text[0] as u32);
        assert(encode_utf8(text) == head + encode_utf8(rest));
        assert forall|i: int| 0 <= i < encode_utf8(text).len() implies #[trigger] encode_utf8(
            text,
        )[i] != LINE_FEED by {
            if i < head.len() {
                assert(encode_utf8(text)[i] == head[i]);
            } else {
                assert(encode_utf8(text)[i] == encode_utf8(rest)[i - head.len()]);
            }
        }
        if rest.len() == 0 {
            assert(encode_utf8(rest).len() == 0);
            assert(encode_utf8(text).last() == head.last());
        } else {
            lemma_encode_scalar(rest[0]);
            assert(encode_utf8(rest).len() > 0);
            assert(encode_utf8(text).last() == encode_utf8(rest).last());
        }
    }
}

/// The lines behind a line feed do not depend on what stands before it.
proof fn lemma_byte_lines_concat(head: Seq<u8>, tail: Seq<u8>)
    requires
        is_at_line_start(head),
    ensures
        byte_lines(head + tail) == byte_lines(head) + byte_lines(tail),
    decreases head.len(),
{
    if head.len() == 0 {
        assert(head + tail =~= tail);
        assert(byte_lines(head) + byte_lines(tail) =~= byte_lines(tail));
    } else {
        lemma_line_end_is_first(head);
        let end = line_end(head) as int;
        let whole = head + tail;
        if end == head.len() {
            assert(head[head.len() - 1] != LINE_FEED);
        }
        lemma_line_end(whole, end);
        assert(whole.take(end) =~= head.take(end));
        let rest = head.skip(end + 1);
        assert(whole.skip(end + 1) =~= rest + tail);
        if rest.len() > 0 {
            assert(rest.last() == head.last());
        }
        lemma_byte_lines_concat(rest, tail);
        assert(byte_lines(whole) =~= byte_lines(head) + byte_lines(tail));
    }
}

proof fn lemma_line_end_is_first(bytes: Seq<u8>)
    ensures
        line_end(bytes) <= bytes.len(),
        forall|i: int| 0 <= i < line_end(bytes) ==> #[trigger] bytes[i] != LINE_FEED,
        line_end(bytes) < bytes.len() ==> bytes[line_end(bytes) as int] == LINE_FEED,
    decreases bytes.len(),
{
    if bytes.len() > 0 && bytes.first() != LINE_FEED {
        let rest = bytes.drop_first();
        lemma_line_end_is_first(rest);
        assert forall|i: int| 0 <= i < line_end(bytes) implies #[trigger] bytes[i] != LINE_FEED by {
            if i > 0 {
                assert(bytes[i] == rest[i - 1]);
            }
        }
    }
}

proof fn lemma_text_lines_concat(a: Seq<Seq<u8>>, b: Seq<Seq<u8>>)
    ensures
        text_lines(a + b) == text_lines(a) + text_lines(b),
    decreases b.len(),
{
    if b.len() == 0 {
        assert(a + b =~= a);
        assert(text_lines(a) + text_lines(b) =~= text_lines(a));
    } else {
        lemma_text_lines_concat(a, b.drop_last());
        assert((a + b).drop_last() =~= a + b.drop_last());
        assert(text_lines(a + b) =~= text_lines(a) + text_lines(b));
    }
}

/// What stands in front of a line start reads the same whatever follows, and
/// what follows reads as it would alone: a line that was cut short, or is not
/// text, takes no other line with it.
pub proof fn law_lines_are_read_apart(head: Seq<u8>, tail: Seq<u8>)
    requires
        is_at_line_start(head),
    ensures
        lines_of(head + tail) == lines_of(head) + lines_of(tail),
{
    lemma_byte_lines_concat(head, tail);
    lemma_text_lines_concat(byte_lines(head), byte_lines(tail));
}

/// A line of text appended at a line start is read back as the last line, with
/// every earlier line in place.
pub proof fn law_an_appended_line_is_read_back_last(contents: Seq<u8>, line: Seq<char>)
    requires
        is_at_line_start(contents),
        is_line(line),
    ensures
        lines_of(contents + encode_utf8(ended(line))) == lines_of(contents).push(line),
        is_at_line_start(contents + encode_utf8(ended(line))),
{
    law_lines_are_read_apart(contents, encode_utf8(ended(line)));
    let bytes = encode_utf8(line);
    let lf = seq!['\n'];
    assert(ended(line) =~= line + lf);
    lemma_encode_concat(line, lf);
    lemma_encode_scalar('\n');
    assert(lf.drop_first() =~= Seq::<char>::empty());
    assert(encode_utf8(Seq::<char>::empty()) =~= Seq::<u8>::empty());
    assert(encode_utf8(lf) == encode_scalar('\n' as u32) + encode_utf8(lf.drop_first()));
    assert(encode_utf8(lf) =~= seq![LINE_FEED]);
    let whole = encode_utf8(ended(line));
    assert(whole == bytes + seq![LINE_FEED]);
    lemma_line_bytes(line);
    lemma_line_end(whole, bytes.len() as int);
    assert(whole.take(bytes.len() as int) =~= bytes);
    assert(whole.skip(bytes.len() as int + 1) =~= Seq::<u8>::empty());
    assert(byte_lines(Seq::<u8>::empty()) =~= Seq::<Seq<u8>>::empty());
    assert(byte_lines(whole) =~= seq![bytes]);
    encode_utf8_valid_utf8(line);
    encode_utf8_decode_utf8(line);
    assert(seq![bytes].drop_last() =~= Seq::<Seq<u8>>::empty());
    assert(text_lines(Seq::<Seq<u8>>::empty()) =~= Seq::<Seq<char>>::empty());
    assert(seq![bytes].last() == bytes);
    assert(lines_of(whole) =~= seq![line]);
    assert(lines_of(contents) + seq![line] =~= lines_of(contents).push(line));
}

/// Lines of text written one after the other are read back as they were
/// written.
pub proof fn law_written_lines_are_read_back(lines: Seq<Seq<char>>)
    requires
        forall|i: int| 0 <= i < lines.len() ==> is_line(#[trigger] lines[i]),
    ensures
        lines_of(encode_utf8(joined(lines))) == lines,
        is_at_line_start(encode_utf8(joined(lines))),
    decreases lines.len(),
{
    if lines.len() == 0 {
        assert(lines_of(encode_utf8(joined(lines))) =~= lines);
    } else {
        let rest = lines.drop_first();
        assert forall|i: int| 0 <= i < rest.len() implies is_line(#[trigger] rest[i]) by {
            assert(rest[i] == lines[i + 1]);
        }
        law_written_lines_are_read_back(rest);
        let first = encode_utf8(ended(lines[0]));
        law_an_appended_line_is_read_back_last(Seq::empty(), lines[0]);
        assert(Seq::<u8>::empty() + first =~= first);
        lemma_encode_concat(ended(lines[0]), joined(rest));
        law_lines_are_read_apart(first, encode_utf8(joined(rest)));
        assert(lines_of(first) =~= seq![lines[0]]);
        assert(lines_of(encode_utf8(joined(lines))) =~= lines);
        let whole = first + encode_utf8(joined(rest));
        if encode_utf8(joined(rest)).len() > 0 {
            assert(whole.last() == encode_utf8(joined(rest)).last());
        } else {
            assert(whole =~= first);
        }
    }
}

/// Texts without line feeds, none of them ending in a carriage return, that are
/// written with a line feed behind each are read back as they are, all of them,
/// whatever they hold and however long they are.
pub proof fn law_texts_written_as_lines_are_read_back(texts: Seq<Seq<char>>)
    requires
        forall|i: int, j: int|
            0 <= i < texts.len() && 0 <= j < texts[i].len() ==> #[trigger] texts[i][j] != '\n',
        forall|i: int|
            0 <= i < texts.len() && (#[trigger] texts[i]).len() > 0 ==> texts[i].last() != '\r',
    ensures
        lines_of(encode_utf8(texts.map_values(|text: Seq<char>| text.push('\n')).flatten()))
            == texts,
{
    assert forall|i: int| 0 <= i < texts.len() implies is_line(#[trigger] texts[i]) by {
        assert forall|j: int| 0 <= j < texts[i].len() implies texts[i][j] != '\n' by {}
    }
    law_written_lines_are_read_back(texts);
    lemma_joined_is_flattened(texts);
}

/// Lines one after the other, as one sequence.
proof fn lemma_joined_is_flattened(texts: Seq<Seq<char>>)
    ensures
        joined(texts) == texts.map_values(|text: Seq<char>| text.push('\n')).flatten(),
    decreases texts.len(),
{
    let all = texts.map_values(|text: Seq<char>| text.push('\n'));
    if texts.len() > 0 {
        lemma_joined_is_flattened(texts.drop_first());
        assert(all.drop_first() =~= texts.drop_first().map_values(
            |text: Seq<char>| text.push('\n'),
        ));
        assert(all.first() == texts.first().push('\n'));
    } else {
        assert(joined(texts) =~= all.flatten());
    }
}

/// The bytes of text without line feeds hold no line feed.
proof fn lemma_no_line_feed(text: Seq<char>)
    requires
        forall|i: int| 0 <= i < text.len() ==> text[i] != '\n',
    ensures
        forall|i: int|
            0 <= i < encode_utf8(text).len() ==> #[trigger] encode_utf8(text)[i] != LINE_FEED,
        text.len() > 0 ==> encode_utf8(text).len() > 0,
    decreases text.len(),
{
    if text.len() > 0 {
        let rest = text.drop_first();
        lemma_encode_scalar(text[0]);
        lemma_no_line_feed(rest);
        let head = encode_scalar(text[0] as u32);
        assert(encode_utf8(text) == head + encode_utf8(rest));
        assert forall|i: int| 0 <= i < encode_utf8(text).len() implies #[trigger] encode_utf8(
            text,
        )[i] != LINE_FEED by {
            if i < head.len() {
                assert(encode_utf8(text)[i] == head[i]);
            } else {
                assert(encode_utf8(text)[i] == encode_utf8(rest)[i - head.len()]);
            }
        }
    }
}

/// Text behind the last line feed is a line too, whatever it ends in.
pub proof fn law_a_last_line_need_not_be_ended(contents: Seq<u8>, line: Seq<char>)
    requires
        contents.len() == 0 || contents.last() == 10u8,
        line.len() > 0,
        forall|i: int| 0 <= i < line.len() ==> line[i] != '\n',
    ensures
        lines_of(contents + encode_utf8(line)) == lines_of(contents).push(line),
{
    let bytes = encode_utf8(line);
    law_lines_are_read_apart(contents, bytes);
    lemma_no_line_feed(line);
    lemma_line_end_is_first(bytes);
    assert(line_end(bytes) == bytes.len());
    assert(byte_lines(bytes) =~= seq![bytes]);
    encode_utf8_valid_utf8(line);
    encode_utf8_decode_utf8(line);
    assert(seq![bytes].drop_last() =~= Seq::<Seq<u8>>::empty());
    assert(text_lines(Seq::<Seq<u8>>::empty()) =~= Seq::<Seq<char>>::empty());
    assert(seq![bytes].last() == bytes);
    assert(lines_of(bytes) =~= seq![line]);
    assert(lines_of(contents) + seq![line] =~= lines_of(contents).push(line));
}

/// A line that is not UTF-8 is passed over, and takes nothing with it of what
/// stands before or behind it.
pub proof fn law_a_line_that_is_not_text_is_passed_over(
    before: Seq<u8>,
    bad: Seq<u8>,
    behind: Seq<u8>,
)
    requires
        before.len() == 0 || before.last() == 10u8,
        forall|i: int| 0 <= i < bad.len() ==> bad[i] != 10u8,
        !valid_utf8(bad),
        bad.len() > 0 && bad.last() == 13u8 ==> !valid_utf8(bad.drop_last()),
    ensures
        lines_of(before + bad.push(10u8) + behind) == lines_of(before) + lines_of(behind),
{
    let whole = bad.push(10u8);
    lemma_line_end(whole, bad.len() as int);
    assert(whole.take(bad.len() as int) =~= bad);
    assert(whole.skip(bad.len() as int + 1) =~= Seq::<u8>::empty());
    assert(byte_lines(Seq::<u8>::empty()) =~= Seq::<Seq<u8>>::empty());
    let line = without_return(bad);
    assert(byte_lines(whole) =~= seq![line]);
    assert(!valid_utf8(line));
    assert(seq![line].drop_last() =~= Seq::<Seq<u8>>::empty());
    assert(text_lines(Seq::<Seq<u8>>::empty()) =~= Seq::<Seq<char>>::empty());
    assert(seq![line].last() == line);
    assert(lines_of(whole) =~= Seq::<Seq<char>>::empty());
    law_lines_are_read_apart(before, whole);
    assert((before + whole).last() == 10u8);
    law_lines_are_read_apart(before + whole, behind);
    assert(lines_of(before) + lines_of(whole) =~= lines_of(before));
}

/// A line feed parts what is read: whatever the bytes are, those behind one read
/// as they would alone, and so do those up to it.
pub proof fn law_a_line_feed_parts_what_is_read(before: Seq<u8>, behind: Seq<u8>)
    ensures
        lines_of(before.push(10u8) + behind) == lines_of(before.push(10u8)) + lines_of(behind),
{
    law_lines_are_read_apart(before.push(10u8), behind);
}

/// Of a line that ends in a carriage return and a line feed, both go, and
/// nothing else does.
pub proof fn law_a_carriage_return_goes_with_its_line_feed(contents: Seq<u8>, line: Seq<char>)
    requires
        contents.len() == 0 || contents.last() == 10u8,
        forall|i: int| 0 <= i < line.len() ==> line[i] != '\n',
    ensures
        lines_of(contents + encode_utf8(line.push('\r').push('\n'))) == lines_of(contents).push(
            line,
        ),
{
    let bytes = encode_utf8(line);
    lemma_no_line_feed(line);
    lemma_encode_push(line, '\r');
    lemma_encode_push(line.push('\r'), '\n');
    let whole = encode_utf8(line.push('\r').push('\n'));
    let returned = bytes.push(13u8);
    assert(whole == returned.push(10u8));
    law_lines_are_read_apart(contents, whole);
    assert forall|i: int| 0 <= i < returned.len() implies #[trigger] whole[i] != LINE_FEED by {
        if i < bytes.len() {
            assert(whole[i] == bytes[i]);
        }
    }
    lemma_line_end(whole, returned.len() as int);
    assert(whole.take(returned.len() as int) =~= returned);
    assert(returned.drop_last() =~= bytes);
    assert(whole.skip(returned.len() as int + 1) =~= Seq::<u8>::empty());
    assert(byte_lines(Seq::<u8>::empty()) =~= Seq::<Seq<u8>>::empty());
    assert(byte_lines(whole) =~= seq![bytes]);
    encode_utf8_valid_utf8(line);
    encode_utf8_decode_utf8(line);
    assert(seq![bytes].drop_last() =~= Seq::<Seq<u8>>::empty());
    assert(text_lines(Seq::<Seq<u8>>::empty()) =~= Seq::<Seq<char>>::empty());
    assert(seq![bytes].last() == bytes);
    assert(lines_of(whole) =~= seq![line]);
    assert(lines_of(contents) + seq![line] =~= lines_of(contents).push(line));
}

/// A line feed or carriage return behind text is one byte behind its bytes.
proof fn lemma_encode_push(text: Seq<char>, c: char)
    requires
        c == '\n' || c == '\r',
    ensures
        encode_utf8(text.push(c)) == encode_utf8(text).push(c as u8),
{
    let end = seq![c];
    assert(text.push(c) =~= text + end);
    lemma_encode_concat(text, end);
    lemma_encode_scalar(c);
    assert(end.drop_first() =~= Seq::<char>::empty());
    assert(encode_utf8(Seq::<char>::empty()) =~= Seq::<u8>::empty());
    assert(encode_utf8(end) == encode_scalar(c as u32) + encode_utf8(end.drop_first()));
    assert(encode_utf8(end) =~= seq![c as u8]);
    assert(encode_utf8(text) + seq![c as u8] =~= encode_utf8(text).push(c as u8));
}

} // verus!

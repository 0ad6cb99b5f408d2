//! The command history file that the arrow keys walk through.
//!
//! The file is a list of lines. Reading splits bytes into lines the way
//! `BufRead::lines` does; appending keeps the most recent entries only.
use vstd::prelude::*;
use vstd::utf8::{
    char_is_scalar, encode_scalar, encode_utf8, encode_utf8_decode_utf8,
    encode_utf8_valid_utf8, valid_utf8,
};
use vstd::string::StringExecFns;
use crate::clock::{format_timestamp, timestamp_text, LocalTime};
use crate::text::{decoded, utf8_string};

verus! {

/// The byte that ends a line.
pub const LINE_FEED: u8 = 10;

/// The byte dropped from the end of a line that ended with a line feed.
pub const CARRIAGE_RETURN: u8 = 13;

/// How many lines the history file keeps.
pub const HISTORY_CAPACITY: usize = 500;

/// Why the history file could not be updated.
#[derive(Debug, Clone, Copy, PartialEq, Eq, Structural)]
pub enum HistoryError {
    /// The file held bytes that are not UTF-8 text.
    InvalidUtf8,
}

/// A line without the carriage return that preceded its line feed.
pub open spec fn strip_carriage_return(line: Seq<u8>) -> Seq<u8> {
    if line.len() > 0 && line.last() == CARRIAGE_RETURN {
        line.drop_last()
    } else {
        line
    }
}

/// The number of bytes before the first line feed of `s` (all of them when there is none).
pub open spec fn line_length(s: Seq<u8>) -> nat
    decreases s.len(),
{
    if s.len() == 0 {
        0
    } else if s[0] == LINE_FEED {
        0
    } else {
        1 + line_length(s.drop_first())
    }
}

/// The lines of `s`: each ends at a line feed, which is dropped together with a
/// carriage return just before it; a last line without a line feed is kept
/// as it is; there is no line after a final line feed.
pub open spec fn split_lines(s: Seq<u8>) -> Seq<Seq<u8>>
    decreases s.len(),
    via split_lines_decreases
{
    if s.len() == 0 {
        seq![]
    } else {
        let n = line_length(s);
        if n >= s.len() {
            seq![s]
        } else {
            seq![strip_carriage_return(s.take(n as int))] + split_lines(s.skip(n + 1 as int))
        }
    }
}

#[via_fn]
proof fn split_lines_decreases(s: Seq<u8>) {
    lemma_line_length_bound(s);
}

/// The file text that holds `lines`, each followed by a line feed.
pub open spec fn join_lines(lines: Seq<Seq<u8>>) -> Seq<u8>
    decreases lines.len(),
{
    if lines.len() == 0 {
        seq![]
    } else {
        join_lines(lines.drop_last()) + lines.last() + seq![LINE_FEED]
    }
}

/// The last `cap` lines of `lines` (all of them when there are fewer).
pub open spec fn most_recent(lines: Seq<Seq<u8>>, cap: nat) -> Seq<Seq<u8>> {
    if lines.len() > cap {
        lines.skip(lines.len() - cap)
    } else {
        lines
    }
}

/// The lines of the history after `entry` was appended.
pub open spec fn appended_history(lines: Seq<Seq<u8>>, entry: Seq<u8>) -> Seq<Seq<u8>> {
    most_recent(lines.push(entry), HISTORY_CAPACITY as nat)
}

/// The text of line number `index` (counted from one) of `content`: empty when
/// there is no such line or when the line is not UTF-8 text.
pub open spec fn recalled_line(content: Seq<u8>, index: int) -> Seq<char> {
    let lines = split_lines(content);
    if index <= 0 || index > lines.len() {
        seq![]
    } else {
        match decoded(lines[index - 1]) {
            Some(text) => text,
            None => seq![],
        }
    }
}

/// The byte sequences held by a vector of lines.
pub open spec fn line_views(lines: Seq<Vec<u8>>) -> Seq<Seq<u8>> {
    lines.map_values(|l: Vec<u8>| l@)
}

/// The line length is at most the length of the text.
pub proof fn lemma_line_length_bound(s: Seq<u8>)
    ensures
        line_length(s) <= s.len(),
        line_length(s) < s.len() ==> s[line_length(s) as int] == LINE_FEED,
        forall|j: int| 0 <= j < line_length(s) ==> s[j] != LINE_FEED,
    decreases s.len(),
{
    if s.len() > 0 && s[0] != LINE_FEED {
        lemma_line_length_bound(s.drop_first());
        assert forall|j: int| 0 <= j < line_length(s) implies s[j] != LINE_FEED by {
            if j > 0 {
                assert(s[j] == s.drop_first()[j - 1]);
            }
        }
    }
}

/// A line length found by scanning is the line length.
proof fn lemma_line_length_exact(s: Seq<u8>, n: int)
    requires
        0 <= n <= s.len(),
        forall|j: int| 0 <= j < n ==> s[j] != LINE_FEED,
        n < s.len() ==> s[n] == LINE_FEED,
    ensures
        line_length(s) == n,
    decreases n,
{
    if n > 0 {
        lemma_line_length_exact(s.drop_first(), n - 1);
    }
}

/// Copies `content[start..end]` into a new vector.
fn copy_range(content: &[u8], start: usize, end: usize) -> (out: Vec<u8>)
    requires
        start <= end <= content@.len(),
    ensures
        out@ == content@.subrange(start as int, end as int),
{
    let mut out: Vec<u8> = Vec::new();
    let mut i = start;
    while i < end
        invariant
            start <= i <= end <= content@.len(),
            out@ == content@.subrange(start as int, i as int),
        decreases end - i,
    {
        out.push(content[i]);
        i += 1;
    }
    out
}

/// Splits the bytes of a history file into its lines.
pub fn split_history_lines(content: &[u8]) -> (lines: Vec<Vec<u8>>)
    ensures
        line_views(lines@) == split_lines(content@),
{
    let n = content.len();
    let mut lines: Vec<Vec<u8>> = Vec::new();
    let mut start: usize = 0;
    assert(content@.skip(0) =~= content@);
    while start < n
        invariant
            n == content@.len(),
            start <= n,
            split_lines(content@) == line_views(lines@) + split_lines(content@.skip(start as int)),
        decreases n - start,
    {
        let mut end = start;
        while end < n && content[end] != LINE_FEED
            invariant
                n == content@.len(),
                start <= end <= n,
                forall|j: int| start <= j < end ==> content@[j] != LINE_FEED,
            decreases n - end,
        {
            end += 1;
        }
        let ghost rest = content@.skip(start as int);
        proof {
            lemma_line_length_exact(rest, end - start);
        }
        let ghost old_lines = lines@;
        if end == n {
            let line = copy_range(content, start, n);
            assert(rest.take((n - start) as int) =~= rest);
            lines.push(line);
            assert(line_views(lines@) =~= line_views(old_lines).push(rest));
            assert(content@.skip(n as int) =~= Seq::<u8>::empty());
            start = n;
        } else {
            let mut cut = end;
            if cut > start && content[cut - 1] == CARRIAGE_RETURN {
                cut = cut - 1;
            }
            let line = copy_range(content, start, cut);
            assert(line@ =~= strip_carriage_return(rest.take(end - start)));
            lines.push(line);
            assert(line_views(lines@) =~= line_views(old_lines).push(line@));
            assert(rest.skip(end - start + 1) =~= content@.skip(end + 1));
            start = end + 1;
        }
    }
    assert(content@.skip(n as int) =~= Seq::<u8>::empty());
    assert(line_views(lines@) + seq![] =~= line_views(lines@));
    lines
}

/// Writes `lines` as file text, each line followed by a line feed.
pub fn render_history(lines: &Vec<Vec<u8>>) -> (out: Vec<u8>)
    ensures
        out@ == join_lines(line_views(lines@)),
{
    let mut out: Vec<u8> = Vec::new();
    let mut i: usize = 0;
    while i < lines.len()
        invariant
            i <= lines@.len(),
            out@ == join_lines(line_views(lines@).take(i as int)),
        decreases lines@.len() - i,
    {
        let line = &lines[i];
        let mut j: usize = 0;
        let ghost before = out@;
        while j < line.len()
            invariant
                j <= line@.len(),
                out@ == before + line@.take(j as int),
            decreases line@.len() - j,
        {
            out.push(line[j]);
            j += 1;
            assert(out@ =~= before + line@.take(j as int));
        }
        out.push(LINE_FEED);
        proof {
            let taken = line_views(lines@).take(i + 1);
            assert(taken.drop_last() =~= line_views(lines@).take(i as int));
            assert(line@.take(line@.len() as int) =~= line@);
        }
        i += 1;
    }
    assert(line_views(lines@).take(lines@.len() as int) =~= line_views(lines@));
    out
}

/// The text of line number `param_index` (counted from one) of the history
/// file `content`. It is empty when the index is not that of a line, and when
/// that line is not UTF-8 text.
pub fn get_string_from_file(content: &[u8], param_index: i32) -> (line: String)
    ensures
        line@ == recalled_line(content@, param_index as int),
{
    let lines = split_history_lines(content);
    if param_index <= 0 || param_index as usize > lines.len() {
        return String::new();
    }
    let index = (param_index - 1) as usize;
    assert(lines@[index as int]@ == split_lines(content@)[index as int]);
    match utf8_string(lines[index].as_slice()) {
        Some(text) => text,
        None => String::new(),
    }
}

/// The new text of the history file `content` after `string` was appended as
/// its last line; only the most recent lines are kept.
///
/// The file must be UTF-8 text; otherwise nothing is appended.
pub fn append_string_to_file(content: &[u8], string: &str) -> (updated: Result<
    Vec<u8>,
    HistoryError,
>)
    ensures
        updated is Err <==> !valid_utf8(content@),
        updated matches Err(e) ==> e == HistoryError::InvalidUtf8,
        updated matches Ok(text) ==> text@ == join_lines(
            appended_history(split_lines(content@), encode_utf8(string@)),
        ),
{
    if utf8_string(content).is_none() {
        return Err(HistoryError::InvalidUtf8);
    }
    let mut lines = split_history_lines(content);
    let ghost old_lines = line_views(lines@);
    if lines.len() >= HISTORY_CAPACITY {
        lines.remove(0);
    }
    let entry_bytes = string.as_bytes();
    let entry = copy_range(entry_bytes, 0, entry_bytes.len());
    assert(entry@ =~= encode_utf8(string@));
    lines.push(entry);
    if lines.len() > HISTORY_CAPACITY {
        let excess = lines.len() - HISTORY_CAPACITY;
        lines = lines.split_off(excess);
    }
    assert(line_views(lines@) =~= appended_history(old_lines, encode_utf8(string@)));
    Ok(render_history(&lines))
}

/// No byte of any line is a line feed.
pub open spec fn lines_without_feed(lines: Seq<Seq<u8>>) -> bool {
    forall|i: int, j: int| 0 <= i < lines.len() && 0 <= j < lines[i].len() ==> #[trigger] lines[i][j]
        != LINE_FEED
}

/// A text without a line feed character.
pub open spec fn single_line(text: Seq<char>) -> bool {
    forall|i: int| 0 <= i < text.len() ==> text[i] != '\n'
}

/// The lines that `split_lines` produces hold no line feed.
pub proof fn lemma_split_lines_without_feed(s: Seq<u8>)
    ensures
        lines_without_feed(split_lines(s)),
    decreases s.len(),
{
    if s.len() > 0 {
        lemma_line_length_bound(s);
        let n = line_length(s);
        if n < s.len() {
            lemma_split_lines_without_feed(s.skip(n + 1 as int));
            let first = strip_carriage_return(s.take(n as int));
            let rest = split_lines(s.skip(n + 1 as int));
            let all = split_lines(s);
            assert forall|i: int, j: int| 0 <= i < all.len() && 0 <= j < all[i].len() implies #[trigger] all[i][j]
                != LINE_FEED by {
                if i == 0 {
                    assert(all[0] == first);
                    assert(first[j] == s[j]);
                } else {
                    assert(all[i] == rest[i - 1]);
                }
            }
        }
    }
}

/// Splitting the text at the front of a joined list.
pub proof fn lemma_join_lines_front(lines: Seq<Seq<u8>>)
    requires
        lines.len() > 0,
    ensures
        join_lines(lines) == lines[0] + seq![LINE_FEED] + join_lines(lines.drop_first()),
    decreases lines.len(),
{
    if lines.len() == 1 {
        assert(lines.drop_last() =~= Seq::<Seq<u8>>::empty());
        assert(lines.drop_first() =~= Seq::<Seq<u8>>::empty());
        assert(join_lines(lines.drop_last()) =~= Seq::<u8>::empty());
        assert(join_lines(lines.drop_first()) =~= Seq::<u8>::empty());
        assert(lines.last() == lines[0]);
        assert(join_lines(lines) =~= lines[0] + seq![LINE_FEED] + join_lines(lines.drop_first()));
    } else {
        lemma_join_lines_front(lines.drop_last());
        assert(lines.drop_last().drop_first() =~= lines.drop_first().drop_last());
        assert(lines.drop_first().last() == lines.last());
        assert(join_lines(lines) =~= lines[0] + seq![LINE_FEED] + join_lines(lines.drop_first()));
    }
}

/// Reading back joined lines gives each line without a trailing carriage return.
pub proof fn lemma_split_join(lines: Seq<Seq<u8>>)
    requires
        lines_without_feed(lines),
    ensures
        split_lines(join_lines(lines)) == lines.map_values(|l: Seq<u8>| strip_carriage_return(l)),
    decreases lines.len(),
{
    let text = join_lines(lines);
    if lines.len() == 0 {
        assert(lines.map_values(|l: Seq<u8>| strip_carriage_return(l)) =~= Seq::<Seq<u8>>::empty());
    } else {
        lemma_join_lines_front(lines);
        let rest = lines.drop_first();
        let n = lines[0].len() as int;
        assert forall|j: int| 0 <= j < n implies text[j] != LINE_FEED by {
            assert(text[j] == lines[0][j]);
        }
        lemma_line_length_exact(text, n);
        assert(text.take(n) =~= lines[0]);
        assert(text.skip(n + 1) =~= join_lines(rest));
        assert(lines_without_feed(rest)) by {
            assert forall|i: int, j: int| 0 <= i < rest.len() && 0 <= j < rest[i].len() implies #[trigger] rest[i][j]
                != LINE_FEED by {
                assert(rest[i] == lines[i + 1]);
            }
        }
        lemma_split_join(rest);
        assert(lines.map_values(|l: Seq<u8>| strip_carriage_return(l)) =~= seq![
            strip_carriage_return(lines[0]),
        ] + rest.map_values(|l: Seq<u8>| strip_carriage_return(l)));
    }
}

proof fn lemma_high_bytes(x: u8)
    by (bit_vector)
    ensures
        (0x80u8 | x) >= 0x80u8,
        (0xC0u8 | x) >= 0x80u8,
        (0xE0u8 | x) >= 0x80u8,
        (0xF0u8 | x) >= 0x80u8,
{
}

/// A character below 0x80 is encoded as that one byte; every byte of any other
/// character is at least 0x80.
proof fn lemma_scalar_bytes(c: char)
    ensures
        (c as u32) < 0x80 ==> encode_scalar(c as u32) == seq![(c as u32) as u8],
        (c as u32) >= 0x80 ==> forall|j: int|
            0 <= j < encode_scalar(c as u32).len() ==> #[trigger] encode_scalar(c as u32)[j] >= 0x80,
        encode_scalar(c as u32).len() > 0,
{
    char_is_scalar(c);
    let v = c as u32;
    if v < 0x80 {
        assert((v & 0x7Fu32) as u8 == v as u8) by (bit_vector)
            requires
                v < 0x80u32,
        ;
    } else {
        lemma_high_bytes(((v >> 6u32) & 0x1Fu32) as u8);
        lemma_high_bytes(((v >> 12u32) & 0x0Fu32) as u8);
        lemma_high_bytes(((v >> 18u32) & 0x7u32) as u8);
        lemma_high_bytes((v & 0x3Fu32) as u8);
        lemma_high_bytes(((v >> 6u32) & 0x3Fu32) as u8);
        lemma_high_bytes(((v >> 12u32) & 0x3Fu32) as u8);
    }
}

/// The UTF-8 bytes of a text without line feed characters hold no line feed byte.
proof fn lemma_encode_single_line(text: Seq<char>)
    requires
        single_line(text),
    ensures
        forall|j: int| 0 <= j < encode_utf8(text).len() ==> encode_utf8(text)[j] != LINE_FEED,
    decreases text.len(),
{
    if text.len() > 0 {
        let head = encode_scalar(text[0] as u32);
        let rest = text.drop_first();
        lemma_scalar_bytes(text[0]);
        lemma_encode_single_line(rest);
        assert(encode_utf8(text) =~= head + encode_utf8(rest));
        assert(text[0] != '\n');
        if (text[0] as u32) == 10 {
            vstd::utf8::char_u32_cast(text[0], 10u32);
            assert((10u32 as char) == '\n');
        }
        assert forall|j: int| 0 <= j < encode_utf8(text).len() implies encode_utf8(text)[j]
            != LINE_FEED by {
            if j < head.len() {
                assert(encode_utf8(text)[j] == head[j]);
            } else {
                assert(encode_utf8(text)[j] == encode_utf8(rest)[j - head.len()]);
            }
        }
    }
}

/// The UTF-8 bytes of a text end with a carriage return byte only when the
/// text ends with a carriage return.
proof fn lemma_encode_last_byte(text: Seq<char>)
    requires
        text.len() > 0 ==> text.last() != '\r',
    ensures
        strip_carriage_return(encode_utf8(text)) == encode_utf8(text),
    decreases text.len(),
{
    if text.len() > 0 {
        let head = encode_scalar(text[0] as u32);
        let rest = text.drop_first();
        let bytes = encode_utf8(text);
        lemma_scalar_bytes(text[0]);
        assert(bytes =~= head + encode_utf8(rest));
        if rest.len() > 0 {
            assert(rest.last() == text.last());
            lemma_encode_last_byte(rest);
            lemma_encode_nonempty(rest);
            assert(bytes.last() == encode_utf8(rest).last());
        } else {
            assert(encode_utf8(rest) =~= Seq::<u8>::empty());
            assert(bytes =~= head);
            if (text[0] as u32) == 13 {
                vstd::utf8::char_u32_cast(text[0], 13u32);
                assert((13u32 as char) == '\r');
            }
        }
    }
}

proof fn lemma_encode_nonempty(text: Seq<char>)
    requires
        text.len() > 0,
    ensures
        encode_utf8(text).len() > 0,
{
    lemma_scalar_bytes(text[0]);
}

/// Appending keeps the most recent lines: at most the capacity, the new
/// entry last, and before it the lines that were there, oldest dropped first.
pub proof fn lemma_append_keeps_recent(lines: Seq<Seq<u8>>, entry: Seq<u8>)
    ensures
        appended_history(lines, entry).len() <= HISTORY_CAPACITY,
        appended_history(lines, entry).len() == if lines.len() + 1 > HISTORY_CAPACITY {
            HISTORY_CAPACITY as int
        } else {
            lines.len() + 1 as int
        },
        appended_history(lines, entry).last() == entry,
        appended_history(lines, entry).drop_last() == most_recent(
            lines,
            (HISTORY_CAPACITY - 1) as nat,
        ),
{
    let pushed = lines.push(entry);
    let result = appended_history(lines, entry);
    if pushed.len() > HISTORY_CAPACITY {
        assert(result.drop_last() =~= lines.skip(lines.len() - (HISTORY_CAPACITY - 1)));
    } else {
        assert(result.drop_last() =~= lines);
    }
}

/// Reading the history file back after an append: it holds at most the
/// capacity of lines, and its last line is the appended text, provided that
/// text is one line that does not end with a carriage return.
pub proof fn lemma_recall_after_append(content: Seq<u8>, entry: Seq<char>)
    requires
        single_line(entry),
        entry.len() > 0 ==> entry.last() != '\r',
    ensures
        ({
            let written = join_lines(appended_history(split_lines(content), encode_utf8(entry)));
            let count = split_lines(written).len();
            &&& 1 <= count <= HISTORY_CAPACITY
            &&& count == appended_history(split_lines(content), encode_utf8(entry)).len()
            &&& recalled_line(written, count as int) == entry
        }),
{
    let old_lines = split_lines(content);
    let bytes = encode_utf8(entry);
    let kept = appended_history(old_lines, bytes);
    let written = join_lines(kept);
    lemma_append_keeps_recent(old_lines, bytes);
    lemma_split_lines_without_feed(content);
    lemma_encode_single_line(entry);
    assert(lines_without_feed(kept)) by {
        let pushed = old_lines.push(bytes);
        assert forall|i: int, j: int| 0 <= i < kept.len() && 0 <= j < kept[i].len() implies #[trigger] kept[i][j]
            != LINE_FEED by {
            let k = i + (pushed.len() - kept.len());
            assert(kept[i] == pushed[k]);
            if k < old_lines.len() {
                assert(pushed[k] == old_lines[k]);
            }
        }
    }
    lemma_split_join(kept);
    lemma_encode_last_byte(entry);
    let count = split_lines(written).len();
    assert(split_lines(written)[count - 1] == strip_carriage_return(kept.last()));
    encode_utf8_valid_utf8(entry);
    encode_utf8_decode_utf8(entry);
}

/// The line that records `command` in the bash history file, run at `time`.
pub open spec fn bash_history_line(time: Seq<char>, command: Seq<char>) -> Seq<char> {
    seq!['#'] + time + seq![' '] + command + seq!['\n']
}

/// Writes the bash history line for `command` run at `time`.
pub fn format_bash_history_entry(time: &str, command: &str) -> (line: String)
    ensures
        line@ == bash_history_line(time@, command@),
{
    let mut line = "#".to_owned();
    line.append(time);
    line.append(" ");
    line.append(command);
    line.append("\n");
    proof {
        reveal_strlit("#");
        reveal_strlit(" ");
        reveal_strlit("\n");
    }
    line
}

/// The bash history line for `command`, stamped with the clock reading `now`.
pub fn bash_history_entry(command: &str, now: &LocalTime) -> (line: String)
    requires
        now.wf(),
    ensures
        line@ == bash_history_line(timestamp_text(*now), command@),
{
    let time = format_timestamp(now);
    format_bash_history_entry(time.as_str(), command)
}

} // verus!

//! Text helpers: UTF-8 decoding, Unicode white space, trimming and words.
use vstd::prelude::*;
use vstd::string::{StrSliceExecFns, StringExecFns};
use vstd::utf8::{decode_utf8, valid_utf8};

verus! {

/// The UTF-8 text that `bytes` encode, or nothing when they are not valid UTF-8.
pub open spec fn decoded(bytes: Seq<u8>) -> Option<Seq<char>> {
    if valid_utf8(bytes) {
        Some(decode_utf8(bytes))
    } else {
        None
    }
}

/// Decodes `bytes` as UTF-8 with `String::from_utf8`.
///
/// Trusted: std documents that `String::from_utf8` succeeds exactly when the
/// bytes are valid UTF-8 and then holds the characters they encode; the
/// contract states this with vstd's model of UTF-8.
#[verifier::external_body]
pub(crate) fn utf8_string(bytes: &[u8]) -> (text: Option<String>)
    ensures
        text is Some <==> valid_utf8(bytes@),
        text matches Some(t) ==> t@ == decode_utf8(bytes@),
{
    String::from_utf8(bytes.to_vec()).ok()
}

/// The characters with the Unicode `White_Space` property.
pub open spec fn is_white_space(c: char) -> bool {
    let v = c as u32;
    ||| 0x09 <= v <= 0x0D
    ||| v == 0x20
    ||| v == 0x85
    ||| v == 0xA0
    ||| v == 0x1680
    ||| 0x2000 <= v <= 0x200A
    ||| v == 0x2028
    ||| v == 0x2029
    ||| v == 0x202F
    ||| v == 0x205F
    ||| v == 0x3000
}

/// Tells whether `c` is white space, as `char::is_whitespace` does: whether
/// it has the Unicode `White_Space` property.
pub fn char_is_whitespace(c: char) -> (white: bool)
    ensures
        white == is_white_space(c),
{
    let v = c as u32;
    (0x09 <= v && v <= 0x0D) || v == 0x20 || v == 0x85 || v == 0xA0 || v == 0x1680 || (0x2000
        <= v && v <= 0x200A) || v == 0x2028 || v == 0x2029 || v == 0x202F || v == 0x205F || v
        == 0x3000
}

/// `s` without its leading white space.
pub open spec fn trim_start(s: Seq<char>) -> Seq<char>
    decreases s.len(),
{
    if s.len() > 0 && is_white_space(s[0]) {
        trim_start(s.drop_first())
    } else {
        s
    }
}

/// `s` without its trailing white space.
pub open spec fn trim_end(s: Seq<char>) -> Seq<char>
    decreases s.len(),
{
    if s.len() > 0 && is_white_space(s.last()) {
        trim_end(s.drop_last())
    } else {
        s
    }
}

/// `s` without leading and trailing white space.
pub open spec fn trimmed(s: Seq<char>) -> Seq<char> {
    trim_end(trim_start(s))
}

/// The words of `s`: its longest runs of characters that are not white space, in order.
pub open spec fn words(s: Seq<char>) -> Seq<Seq<char>>
    decreases s.len(),
{
    if s.len() == 0 {
        seq![]
    } else {
        let init = words(s.drop_last());
        let c = s.last();
        if is_white_space(c) {
            init
        } else if s.len() >= 2 && !is_white_space(s[s.len() - 2]) {
            init.update(init.len() - 1, init.last().push(c))
        } else {
            init.push(seq![c])
        }
    }
}

/// The words `ws` with one space between each two.
pub open spec fn join_words(ws: Seq<Seq<char>>) -> Seq<char>
    decreases ws.len(),
{
    if ws.len() == 0 {
        seq![]
    } else if ws.len() == 1 {
        ws[0]
    } else {
        join_words(ws.drop_last()) + seq![' '] + ws.last()
    }
}

/// The texts held by a vector of strings.
pub open spec fn string_views(v: Seq<String>) -> Seq<Seq<char>> {
    v.map_values(|t: String| t@)
}

/// `s` without leading and trailing white space (as `str::trim` gives it).
pub fn trim_text(s: &str) -> (out: String)
    ensures
        out@ == trimmed(s@),
{
    let n = s.unicode_len();
    let mut start: usize = 0;
    assert(s@.subrange(0, n as int) =~= s@);
    while start < n && char_is_whitespace(s.get_char(start))
        invariant
            n == s@.len(),
            start <= n,
            trim_start(s@) == trim_start(s@.subrange(start as int, n as int)),
        decreases n - start,
    {
        assert(s@.subrange(start as int, n as int).drop_first() =~= s@.subrange(
            start + 1,
            n as int,
        ));
        start += 1;
    }
    assert(trim_start(s@) == s@.subrange(start as int, n as int));
    let mut end: usize = n;
    while end > start && char_is_whitespace(s.get_char(end - 1))
        invariant
            n == s@.len(),
            start <= end <= n,
            trimmed(s@) == trim_end(s@.subrange(start as int, end as int)),
        decreases end - start,
    {
        assert(s@.subrange(start as int, end as int).drop_last() =~= s@.subrange(
            start as int,
            end - 1,
        ));
        end -= 1;
    }
    let piece = s.substring_char(start, end);
    piece.to_owned()
}

/// The words of `s` (as `str::split_whitespace` gives them).
pub fn split_words(s: &str) -> (out: Vec<String>)
    ensures
        string_views(out@) == words(s@),
{
    let n = s.unicode_len();
    let mut out: Vec<String> = Vec::new();
    let mut in_word = false;
    let mut start: usize = 0;
    let mut i: usize = 0;
    assert(s@.take(0) =~= Seq::<char>::empty());
    while i < n
        invariant
            n == s@.len(),
            i <= n,
            start <= i,
            in_word ==> start < i && !is_white_space(s@[i - 1]) && words(s@.take(i as int))
                == string_views(out@).push(s@.subrange(start as int, i as int)),
            !in_word ==> (i == 0 || is_white_space(s@[i - 1])) && words(s@.take(i as int))
                == string_views(out@),
        decreases n - i,
    {
        let c = s.get_char(i);
        let ghost prefix = s@.take(i + 1);
        assert(prefix.drop_last() =~= s@.take(i as int));
        assert(prefix.last() == c);
        let white = char_is_whitespace(c);
        if white {
            if in_word {
                let ghost before = string_views(out@);
                let word = s.substring_char(start, i).to_owned();
                out.push(word);
                assert(string_views(out@) =~= before.push(s@.subrange(start as int, i as int)));
                in_word = false;
            }
        } else {
            if in_word {
                assert(prefix[prefix.len() - 2] == s@[i - 1]);
                assert(s@.subrange(start as int, i as int).push(c) =~= s@.subrange(
                    start as int,
                    i + 1,
                ));
                let ghost init = string_views(out@).push(s@.subrange(start as int, i as int));
                assert(init.len() - 1 == string_views(out@).len());
                assert(init.last() == s@.subrange(start as int, i as int));
                assert(string_views(out@).push(s@.subrange(start as int, i as int)).update(
                    string_views(out@).len() as int,
                    s@.subrange(start as int, i as int).push(c),
                ) =~= string_views(out@).push(s@.subrange(start as int, i + 1)));
            } else {
                if i > 0 {
                    assert(prefix[prefix.len() - 2] == s@[i - 1]);
                }
                assert(s@.subrange(i as int, i + 1) =~= seq![c]);
                start = i;
                in_word = true;
            }
        }
        i += 1;
    }
    assert(s@.take(n as int) =~= s@);
    if in_word {
        let ghost before = string_views(out@);
        let word = s.substring_char(start, n).to_owned();
        out.push(word);
        assert(string_views(out@) =~= before.push(s@.subrange(start as int, n as int)));
    }
    out
}

/// The strings `parts[from..]` with one space between each two (as `join(" ")` gives them).
pub fn join_with_spaces(parts: &Vec<String>, from: usize) -> (out: String)
    requires
        from <= parts@.len(),
    ensures
        out@ == join_words(string_views(parts@).skip(from as int)),
{
    let mut out = String::new();
    let mut i = from;
    assert(string_views(parts@).skip(from as int).take(0) =~= Seq::<Seq<char>>::empty());
    while i < parts.len()
        invariant
            from <= i <= parts@.len(),
            out@ == join_words(string_views(parts@).skip(from as int).take(i - from)),
        decreases parts@.len() - i,
    {
        let ghost done = string_views(parts@).skip(from as int).take(i - from);
        let ghost next = string_views(parts@).skip(from as int).take(i - from + 1);
        assert(next.drop_last() =~= done);
        assert(next.last() == parts@[i as int]@);
        if i > from {
            out.append(" ");
            proof {
                reveal_strlit(" ");
            }
        } else {
            assert(next =~= seq![parts@[i as int]@]);
        }
        out.append(parts[i].as_str());
        i += 1;
    }
    assert(string_views(parts@).skip(from as int).take(parts@.len() - from) =~= string_views(
        parts@,
    ).skip(from as int));
    out
}

/// The white space characters are exactly the Unicode `White_Space` ones:
/// tab, line feed, vertical tab, form feed, carriage return, space, next line,
/// no-break space, Ogham space mark, the spaces from en quad to hair space,
/// line and paragraph separators, narrow no-break space, medium mathematical
/// space and ideographic space.
pub proof fn lemma_white_space_characters(c: char)
    ensures
        is_white_space(c) <==> (c == '\t' || c == '\n' || c == '\u{0B}' || c == '\u{0C}' || c
            == '\r' || c == ' ' || c == '\u{85}' || c == '\u{A0}' || c == '\u{1680}' || c
            == '\u{2000}' || c == '\u{2001}' || c == '\u{2002}' || c == '\u{2003}' || c
            == '\u{2004}' || c == '\u{2005}' || c == '\u{2006}' || c == '\u{2007}' || c
            == '\u{2008}' || c == '\u{2009}' || c == '\u{200A}' || c == '\u{2028}' || c
            == '\u{2029}' || c == '\u{202F}' || c == '\u{205F}' || c == '\u{3000}'),
{
    if is_white_space(c) {
        let v = c as u32;
        vstd::utf8::char_u32_cast(c, v);
        if 0x2000 <= v <= 0x200A {
            assert(v == 0x2000 || v == 0x2001 || v == 0x2002 || v == 0x2003 || v == 0x2004 || v
                == 0x2005 || v == 0x2006 || v == 0x2007 || v == 0x2008 || v == 0x2009 || v
                == 0x200A);
        }
    }
}

/// Trimming removes white space from both ends and nothing else: the result
/// is a piece of the text, everything around it is white space, and it
/// neither starts nor ends with white space.
pub proof fn lemma_trimmed_is_inner_piece(s: Seq<char>)
    ensures
        exists|a: int, b: int|
            #![trigger s.subrange(a, b)]
            0 <= a <= b <= s.len() && trimmed(s) == s.subrange(a, b) && (forall|i: int|
                0 <= i < a ==> is_white_space(#[trigger] s[i])) && (forall|i: int|
                b <= i < s.len() ==> is_white_space(#[trigger] s[i])),
        trimmed(s).len() > 0 ==> !is_white_space(trimmed(s)[0]) && !is_white_space(
            trimmed(s).last(),
        ),
{
    let (a, t) = lemma_trim_start_piece(s);
    let b = lemma_trim_end_piece(t);
    assert(trimmed(s) == s.subrange(a, a + b));
    assert forall|i: int| a + b <= i < s.len() implies is_white_space(#[trigger] s[i]) by {
        assert(s[i] == t[i - a]);
    }
    if trimmed(s).len() > 0 {
        assert(trimmed(s)[0] == t[0]);
    }
}

proof fn lemma_trim_start_piece(s: Seq<char>) -> (r: (int, Seq<char>))
    ensures
        0 <= r.0 <= s.len(),
        r.1 == s.skip(r.0),
        trim_start(s) == r.1,
        forall|i: int| 0 <= i < r.0 ==> is_white_space(#[trigger] s[i]),
        r.1.len() > 0 ==> !is_white_space(r.1[0]),
    decreases s.len(),
{
    if s.len() > 0 && is_white_space(s[0]) {
        let (a, t) = lemma_trim_start_piece(s.drop_first());
        assert forall|i: int| 0 <= i < a + 1 implies is_white_space(#[trigger] s[i]) by {
            if i > 0 {
                assert(s[i] == s.drop_first()[i - 1]);
            }
        }
        assert(s.drop_first().skip(a) =~= s.skip(a + 1));
        (a + 1, t)
    } else {
        assert(s.skip(0) =~= s);
        (0, s)
    }
}

proof fn lemma_trim_end_piece(s: Seq<char>) -> (b: int)
    ensures
        0 <= b <= s.len(),
        trim_end(s) == s.take(b),
        forall|i: int| b <= i < s.len() ==> is_white_space(#[trigger] s[i]),
        b > 0 ==> !is_white_space(s[b - 1]),
    decreases s.len(),
{
    if s.len() > 0 && is_white_space(s.last()) {
        let b = lemma_trim_end_piece(s.drop_last());
        assert(s.drop_last().take(b) =~= s.take(b));
        assert forall|i: int| b <= i < s.len() implies is_white_space(#[trigger] s[i]) by {
            if i < s.len() - 1 {
                assert(s[i] == s.drop_last()[i]);
            }
        }
        b
    } else {
        assert(s.take(s.len() as int) =~= s);
        s.len() as int
    }
}

} // verus!
